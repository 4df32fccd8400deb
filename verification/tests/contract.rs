//! The contract as a client sees it.

use std::cell::RefCell;
use stableroute_contracts::Address;
use stableroute_contracts::DataKey;
use stableroute_contracts::Event;
use stableroute_contracts::Invocation;
use stableroute_contracts::PairInfo;
use stableroute_contracts::Rejection;
use stableroute_contracts::RouterError;
use stableroute_contracts::StableRouteRouter;
use stableroute_contracts::Storage;
use stableroute_contracts::Symbol;
use stableroute_contracts::Value;
use stableroute_contracts::MAX_BATCH_SIZE;
use stableroute_contracts::MAX_FEE_BPS;

type Answer<T> = Result<T, Rejection<Address>>;

/// What the ledger holds between two invocations.
struct Ledger {
    timestamp: u64,
    /// Who signs the invocations; `None` where everybody does.
    signers: Option<Vec<Address>>,
    storage: Storage,
    /// The events of the last invocation.
    events: Vec<Event<Symbol, Address>>,
}

/// A deployed router.
struct Client {
    ledger: RefCell<Ledger>,
}

fn sym(text: &str) -> Symbol {
    Symbol::new(text).expect("a valid symbol")
}

fn address(name: &str) -> Address {
    Address::new(name)
}

/// Panic the way the host does when a contract call is refused.
fn trap<T>(answer: Answer<T>) -> T {
    match answer {
        Ok(value) => value,
        Err(Rejection::Contract(error)) => panic!("Error(Contract, #{})", error.code()),
        Err(Rejection::Unauthorized(_)) => panic!("Error(Auth, InvalidAction)"),
    }
}

impl Client {
    /// Deploy the router with `admin`. From then on everybody signs.
    fn deploy(admin: &Address) -> Client {
        let client = Client {
            ledger: RefCell::new(Ledger {
                timestamp: 0,
                signers: None,
                storage: Storage::new(),
                events: Vec::new(),
            }),
        };
        trap(client.invoke(|inv| StableRouteRouter::__constructor(inv, admin.clone())));
        client
    }

    fn set_timestamp(&self, timestamp: u64) {
        self.ledger.borrow_mut().timestamp = timestamp;
    }

    /// From now on only `address` signs.
    fn signed_only_by(&self, address: &Address) {
        self.ledger.borrow_mut().signers = Some(vec![address.clone()]);
    }

    /// From now on nobody signs.
    fn signed_by_nobody(&self) {
        self.ledger.borrow_mut().signers = Some(Vec::new());
    }

    /// Write a slot behind the contract's back.
    fn poke(&self, key: DataKey<Symbol>, value: Value<Address>) -> bool {
        self.ledger.borrow_mut().storage.restore(key, value)
    }

    /// Remove a slot behind the contract's back.
    fn forget(&self, key: &DataKey<Symbol>) {
        self.ledger.borrow_mut().storage.remove(key);
    }

    /// Run one invocation.
    fn invoke<T>(&self, entry: impl Fn(&mut Invocation) -> Answer<T>) -> Answer<T> {
        let mut ledger = self.ledger.borrow_mut();
        let storage = std::mem::replace(&mut ledger.storage, Storage::new());
        let mut inv = Invocation::new(ledger.timestamp, storage);
        if let Some(signers) = &ledger.signers {
            inv.signers = signers.clone();
        }
        let mut answer = entry(&mut inv);
        while ledger.signers.is_none() {
            match answer {
                Err(Rejection::Unauthorized(missing)) => inv.signers.push(missing),
                _ => break,
            }
            answer = entry(&mut inv);
        }
        ledger.storage = inv.storage;
        ledger.events = inv.events;
        answer
    }

    /// Run one invocation that only reads.
    fn read<T>(&self, entry: impl Fn(&Invocation) -> T) -> T {
        trap(self.invoke(|inv| Ok(entry(inv))))
    }

    /// All events of the last invocation.
    fn all_events(&self) -> Vec<Event<Symbol, Address>> {
        std::mem::replace(&mut self.ledger.borrow_mut().events, Vec::new())
    }

    /// The events of the last invocation under `topic`.
    fn events(&self, topic: &str) -> Vec<Event<Symbol, Address>> {
        let mut ledger = self.ledger.borrow_mut();
        let (found, rest) = std::mem::replace(&mut ledger.events, Vec::new())
            .into_iter()
            .partition(|event| event.topic() == topic);
        ledger.events = rest;
        found
    }

    fn version(&self) -> Symbol {
        StableRouteRouter::version()
    }

    fn route_tag(&self, s: &Symbol, d: &Symbol) -> [u8; 32] {
        let env = soroban_sdk::Env::default();
        StableRouteRouter::route_tag(&env, s.clone(), d.clone())
    }

    fn init(&self, admin: &Address) {
        trap(self.invoke(|inv| StableRouteRouter::init(inv, admin.clone())))
    }

    fn migrate_v1_to_v2(&self) {
        trap(self.invoke(StableRouteRouter::migrate_v1_to_v2))
    }

    fn pause(&self) {
        trap(self.invoke(StableRouteRouter::pause))
    }

    fn unpause(&self) {
        trap(self.invoke(StableRouteRouter::unpause))
    }

    fn set_timelock(&self, delay: u64) {
        trap(self.invoke(|inv| StableRouteRouter::set_timelock(inv, delay)))
    }

    fn propose_admin_transfer(&self, new_admin: &Address) {
        trap(self.invoke(|inv| StableRouteRouter::propose_admin_transfer(inv, new_admin.clone())))
    }

    fn accept_admin_transfer(&self, caller: &Address) {
        trap(self.invoke(|inv| StableRouteRouter::accept_admin_transfer(inv, caller.clone())))
    }

    fn cancel_admin_transfer(&self) {
        trap(self.invoke(StableRouteRouter::cancel_admin_transfer))
    }

    fn set_fee_recipient(&self, recipient: &Address) {
        trap(self.invoke(|inv| StableRouteRouter::set_fee_recipient(inv, recipient.clone())))
    }

    fn set_max_fee_absolute(&self, max_fee: i128) {
        trap(self.invoke(|inv| StableRouteRouter::set_max_fee_absolute(inv, max_fee)))
    }

    fn set_oracle(&self, oracle: &Address) {
        trap(self.invoke(|inv| StableRouteRouter::set_oracle(inv, oracle.clone())))
    }

    fn remove_oracle(&self) {
        trap(self.invoke(StableRouteRouter::remove_oracle))
    }

    fn register_pair(&self, s: &Symbol, d: &Symbol) {
        trap(self.invoke(|inv| StableRouteRouter::register_pair(inv, s.clone(), d.clone())))
    }

    fn register_pairs(&self, pairs: Vec<(Symbol, Symbol)>) {
        trap(self.invoke(|inv| StableRouteRouter::register_pairs(inv, pairs.clone())))
    }

    fn unregister_pair(&self, s: &Symbol, d: &Symbol) {
        trap(self.invoke(|inv| StableRouteRouter::unregister_pair(inv, s.clone(), d.clone())))
    }

    fn set_pair_fee_bps(&self, s: &Symbol, d: &Symbol, bps: u32) {
        trap(self.invoke(|inv| StableRouteRouter::set_pair_fee_bps(inv, s.clone(), d.clone(), bps)))
    }

    fn set_pair_fees_bps(&self, entries: Vec<(Symbol, Symbol, u32)>) {
        trap(self.invoke(|inv| StableRouteRouter::set_pair_fees_bps(inv, entries.clone())))
    }

    fn set_pair_min_amount(&self, s: &Symbol, d: &Symbol, n: i128) {
        trap(self.invoke(|inv| StableRouteRouter::set_pair_min_amount(inv, s.clone(), d.clone(), n)))
    }

    fn set_pair_max_amount(&self, s: &Symbol, d: &Symbol, n: i128) {
        trap(self.invoke(|inv| StableRouteRouter::set_pair_max_amount(inv, s.clone(), d.clone(), n)))
    }

    fn try_set_pair_liquidity(&self, caller: &Address, s: &Symbol, d: &Symbol, n: i128) -> Answer<()> {
        self.invoke(|inv| {
            StableRouteRouter::set_pair_liquidity(inv, caller.clone(), s.clone(), d.clone(), n)
        })
    }

    fn set_pair_liquidity(&self, caller: &Address, s: &Symbol, d: &Symbol, n: i128) {
        trap(self.try_set_pair_liquidity(caller, s, d, n))
    }

    fn set_pair_cooldown(&self, s: &Symbol, d: &Symbol, secs: u64) {
        trap(self.invoke(|inv| StableRouteRouter::set_pair_cooldown(inv, s.clone(), d.clone(), secs)))
    }

    fn try_compute_route_fee(&self, s: &Symbol, d: &Symbol, amount: i128) -> Answer<i128> {
        self.invoke(|inv| StableRouteRouter::compute_route_fee(inv, s.clone(), d.clone(), amount))
    }

    fn compute_route_fee(&self, s: &Symbol, d: &Symbol, amount: i128) -> i128 {
        trap(self.try_compute_route_fee(s, d, amount))
    }

    fn quote_route(&self, s: &Symbol, d: &Symbol, amount: i128) -> (i128, i128) {
        trap(self.read(|inv| StableRouteRouter::quote_route(inv, s.clone(), d.clone(), amount)))
    }

    fn is_paused(&self) -> bool {
        self.read(StableRouteRouter::is_paused)
    }

    fn get_schema_version(&self) -> u32 {
        self.read(StableRouteRouter::get_schema_version)
    }

    fn get_timelock(&self) -> u64 {
        self.read(StableRouteRouter::get_timelock)
    }

    fn get_pending_admin_eta(&self) -> Option<u64> {
        self.read(StableRouteRouter::get_pending_admin_eta)
    }

    fn get_pending_admin(&self) -> Option<Address> {
        self.read(StableRouteRouter::get_pending_admin)
    }

    fn get_admin(&self) -> Option<Address> {
        self.read(StableRouteRouter::get_admin)
    }

    fn get_fee_recipient(&self) -> Option<Address> {
        self.read(StableRouteRouter::get_fee_recipient)
    }

    fn get_oracle(&self) -> Option<Address> {
        self.read(StableRouteRouter::get_oracle)
    }

    fn get_max_fee_absolute(&self) -> Option<i128> {
        self.read(StableRouteRouter::get_max_fee_absolute)
    }

    fn get_total_routes_all_time(&self) -> u64 {
        self.read(StableRouteRouter::get_total_routes_all_time)
    }

    fn is_pair_registered(&self, s: &Symbol, d: &Symbol) -> bool {
        self.read(|inv| StableRouteRouter::is_pair_registered(inv, s.clone(), d.clone()))
    }

    fn is_pair_active(&self, s: &Symbol, d: &Symbol) -> bool {
        self.read(|inv| StableRouteRouter::is_pair_active(inv, s.clone(), d.clone()))
    }

    fn get_pair_info(&self, s: &Symbol, d: &Symbol) -> PairInfo {
        self.read(|inv| StableRouteRouter::get_pair_info(inv, s.clone(), d.clone()))
    }

    fn get_pair_fee_bps(&self, s: &Symbol, d: &Symbol) -> u32 {
        self.read(|inv| StableRouteRouter::get_pair_fee_bps(inv, s.clone(), d.clone()))
    }

    fn get_pair_min_amount(&self, s: &Symbol, d: &Symbol) -> i128 {
        self.read(|inv| StableRouteRouter::get_pair_min_amount(inv, s.clone(), d.clone()))
    }

    fn get_pair_max_amount(&self, s: &Symbol, d: &Symbol) -> i128 {
        self.read(|inv| StableRouteRouter::get_pair_max_amount(inv, s.clone(), d.clone()))
    }

    fn get_pair_liquidity(&self, s: &Symbol, d: &Symbol) -> i128 {
        self.read(|inv| StableRouteRouter::get_pair_liquidity(inv, s.clone(), d.clone()))
    }

    fn get_pair_last_route_at(&self, s: &Symbol, d: &Symbol) -> Option<u64> {
        self.read(|inv| StableRouteRouter::get_pair_last_route_at(inv, s.clone(), d.clone()))
    }

    fn get_pair_route_count(&self, s: &Symbol, d: &Symbol) -> u64 {
        self.read(|inv| StableRouteRouter::get_pair_route_count(inv, s.clone(), d.clone()))
    }

    fn get_pair_volume(&self, s: &Symbol, d: &Symbol) -> i128 {
        self.read(|inv| StableRouteRouter::get_pair_volume(inv, s.clone(), d.clone()))
    }
}

/// A router and its admin; everybody signs.
fn setup() -> (Client, Address) {
    let admin = address("admin");
    (Client::deploy(&admin), admin)
}

/// A router whose invocations nobody signs.
fn setup_scoped() -> Client {
    let client = Client::deploy(&address("admin"));
    client.signed_by_nobody();
    client
}

/// A router that has lost its admin.
fn setup_without_admin() -> Client {
    let (client, _admin) = setup();
    client.forget(&DataKey::Admin);
    client
}

/// A pair with `fee_bps`, without bounds and with unbounded liquidity.
fn setup_routable_pair(source: &Symbol, destination: &Symbol, fee_bps: u32) -> Client {
    let (client, _admin) = setup();
    client.register_pair(source, destination);
    client.set_pair_fee_bps(source, destination, fee_bps);
    client
}

/// A pair whose fee is half a percent.
fn setup_liquidity_pair() -> (Client, Address, Symbol, Symbol) {
    let (client, admin) = setup();
    let (s, d) = (sym("USDC"), sym("EURC"));
    client.register_pair(&s, &d);
    client.set_pair_fee_bps(&s, &d, 50);
    (client, admin, s, d)
}

/// A pair without a fee.
fn setup_pair() -> (Client, Address, Symbol, Symbol) {
    let (client, admin) = setup();
    let (s, d) = (sym("USDC"), sym("EURC"));
    client.register_pair(&s, &d);
    (client, admin, s, d)
}

/// A pair with the widest bounds and liquidity.
fn setup_wide_pair() -> (Client, Symbol, Symbol) {
    let (client, admin, s, d) = setup_pair();
    client.set_pair_max_amount(&s, &d, i128::MAX);
    client.set_pair_liquidity(&admin, &s, &d, i128::MAX);
    (client, s, d)
}

/// A pair whose fee is one percent.
fn setup_priced_pair() -> (Client, Symbol, Symbol) {
    let (client, _admin, s, d) = setup_pair();
    client.set_pair_fee_bps(&s, &d, 100);
    (client, s, d)
}

/// A deterministic spread of numbers below `bound`.
fn spread(seed: &mut u64, bound: i128) -> i128 {
    let mut n: i128 = 0;
    for _ in 0..2 {
        *seed = seed.wrapping_mul(6364136223846793005).wrapping_add(1442695040888963407);
        n = n * 4294967296 + i128::from(*seed >> 32);
    }
    n % bound
}

/// The fee never exceeds the routed amount and is never negative.
#[test]
fn prop_fee_within_amount() {
    let mut seed: u64 = 1;
    for _ in 0..96 {
        let amount = 1 + spread(&mut seed, 999_999_999_999_999_999_999_999);
        let fee_bps = spread(&mut seed, i128::from(MAX_FEE_BPS) + 1) as u32;
        let client = setup_routable_pair(&sym("USDC"), &sym("EURC"), fee_bps);
        let fee = client.compute_route_fee(&sym("USDC"), &sym("EURC"), amount);
        assert!(fee >= 0);
        assert!(fee <= amount);
    }
}

/// A zero fee always yields a zero fee.
#[test]
fn prop_zero_fee_bps_is_free() {
    let mut seed: u64 = 2;
    for _ in 0..96 {
        let amount = 1 + spread(&mut seed, 999_999_999_999_999_999);
        let client = setup_routable_pair(&sym("USDC"), &sym("EURC"), 0);
        assert_eq!(client.compute_route_fee(&sym("USDC"), &sym("EURC"), amount), 0);
    }
}

/// A quote reports the fee that the route is charged, and fee and net amount
/// add up to the amount.
#[test]
fn prop_quote_matches_compute() {
    let mut seed: u64 = 3;
    for _ in 0..96 {
        let amount = 1 + spread(&mut seed, 999_999_999_999_999_999);
        let fee_bps = spread(&mut seed, i128::from(MAX_FEE_BPS) + 1) as u32;
        let client = setup_routable_pair(&sym("USDC"), &sym("EURC"), fee_bps);
        let (quoted_fee, net) = client.quote_route(&sym("USDC"), &sym("EURC"), amount);
        let computed_fee = client.compute_route_fee(&sym("USDC"), &sym("EURC"), amount);
        assert_eq!(quoted_fee, computed_fee);
        assert_eq!(quoted_fee + net, amount);
    }
}

#[test]
fn test_version() {
    let admin = address("admin");
    let client = Client::deploy(&admin);
    let v = client.version();
    assert_eq!(v, sym("ROUTER_V2"));
}

#[test]
fn test_route_tag() {
    let admin = address("admin");
    let client = Client::deploy(&admin);

    // Determinism: the same inputs hash to the same tag across calls.
    let tag_a = client.route_tag(&sym("USDC"), &sym("EURC"));
    let tag_b = client.route_tag(&sym("USDC"), &sym("EURC"));
    assert_eq!(tag_a, tag_b);

    // Direction sensitivity: (src, dst) differs from (dst, src).
    let reversed = client.route_tag(&sym("EURC"), &sym("USDC"));
    assert_ne!(tag_a, reversed);

    // Distinct pairs produce distinct tags.
    let other = client.route_tag(&sym("USDC"), &sym("XLM"));
    assert_ne!(tag_a, other);
}

#[test]
fn test_init_persists_admin() {
    let (client, admin) = setup();
    assert_eq!(client.get_admin(), Some(admin));
}

#[test]
#[should_panic(expected = "Error(Contract, #1)")]
fn test_init_rejects_double_init() {
    let (client, _admin) = setup();
    let other = address("other");
    client.init(&other);
}

#[test]
fn test_register_pair_round_trip() {
    let (client, _admin) = setup();
    client.register_pair(&sym("USDC"), &sym("EURC"));
    assert!(client.is_pair_registered(&sym("USDC"), &sym("EURC")));
    // Reverse direction is independent.
    assert!(!client.is_pair_registered(&sym("EURC"), &sym("USDC")));
}

#[test]
fn test_register_pair_is_idempotent() {
    let (client, _admin) = setup();
    client.register_pair(&sym("USDC"), &sym("EURC"));
    client.register_pair(&sym("USDC"), &sym("EURC"));
    assert!(client.is_pair_registered(&sym("USDC"), &sym("EURC")));
}

#[test]
#[should_panic(expected = "Error(Contract, #3)")]
fn test_register_pair_rejects_identity() {
    let (client, _admin) = setup();
    client.register_pair(&sym("USDC"), &sym("USDC"));
}

#[test]
fn test_is_pair_registered_defaults_to_false() {
    let (client, _admin) = setup();
    assert!(!client.is_pair_registered(&sym("USDC"), &sym("XLM")));
}

#[test]
fn test_get_pair_fee_bps_defaults_to_zero() {
    let (client, _admin) = setup();
    assert_eq!(client.get_pair_fee_bps(&sym("USDC"), &sym("EURC")), 0);
}

#[test]
fn test_set_pair_fee_bps_round_trip() {
    let (client, _admin) = setup();
    client.register_pair(&sym("USDC"), &sym("EURC"));
    client.set_pair_fee_bps(&sym("USDC"), &sym("EURC"), 50);
    assert_eq!(client.get_pair_fee_bps(&sym("USDC"), &sym("EURC")), 50);
}

#[test]
#[should_panic(expected = "Error(Contract, #4)")]
fn test_set_pair_fee_bps_rejects_above_max() {
    let (client, _admin) = setup();
    client.register_pair(&sym("USDC"), &sym("EURC"));
    client.set_pair_fee_bps(&sym("USDC"), &sym("EURC"), MAX_FEE_BPS + 1);
}

#[test]
fn test_compute_route_fee_basic() {
    let (client, _admin) = setup();
    client.register_pair(&sym("USDC"), &sym("EURC"));
    client.set_pair_fee_bps(&sym("USDC"), &sym("EURC"), 50);
    // 1_000_000 * 50 / 10_000 = 5_000
    let fee = client.compute_route_fee(&sym("USDC"), &sym("EURC"), 1_000_000);
    assert_eq!(fee, 5_000);
}

#[test]
fn test_compute_route_fee_is_zero_when_fee_unset() {
    let (client, _admin) = setup();
    client.register_pair(&sym("USDC"), &sym("EURC"));
    let fee = client.compute_route_fee(&sym("USDC"), &sym("EURC"), 1_000_000);
    assert_eq!(fee, 0);
}

#[test]
#[should_panic(expected = "Error(Contract, #5)")]
fn test_compute_route_fee_rejects_unregistered_pair() {
    let (client, _admin) = setup();
    client.compute_route_fee(&sym("USDC"), &sym("EURC"), 1_000);
}

/// The normal success path must release the reentrancy lock, so two
/// consecutive `compute_route_fee` calls on the same pair both succeed.
/// If the lock leaked, the second call would panic with ReentrantCall.
#[test]
fn test_compute_route_fee_releases_lock_for_consecutive_calls() {
    let (client, _admin) = setup();
    client.register_pair(&sym("USDC"), &sym("EURC"));
    client.set_pair_fee_bps(&sym("USDC"), &sym("EURC"), 50);

    let first = client.compute_route_fee(&sym("USDC"), &sym("EURC"), 1_000_000);
    let second = client.compute_route_fee(&sym("USDC"), &sym("EURC"), 1_000_000);

    assert_eq!(first, 5_000);
    assert_eq!(second, 5_000);
    assert_eq!(client.get_total_routes_all_time(), 2);
}

/// When the reentrancy lock is already held, `compute_route_fee` must
/// reject the call with ReentrantCall (code 16). We simulate the in-flight
/// state by setting the lock directly in the contract's storage, which
/// is exactly what a re-entrant inner call would observe.
#[test]
#[should_panic(expected = "Error(Contract, #16)")]
fn test_compute_route_fee_rejects_reentry() {
    let (client, _admin) = setup();
    client.register_pair(&sym("USDC"), &sym("EURC"));
    client.set_pair_fee_bps(&sym("USDC"), &sym("EURC"), 50);

    // Simulate the lock being already held (as it would be mid-call).
    assert!(client.poke(DataKey::ReentrancyLock, Value::Bool(true)));

    client.compute_route_fee(&sym("USDC"), &sym("EURC"), 1_000_000);
}

#[test]
#[should_panic(expected = "Error(Contract, #6)")]
fn test_compute_route_fee_rejects_zero_amount() {
    let (client, _admin) = setup();
    client.register_pair(&sym("USDC"), &sym("EURC"));
    client.compute_route_fee(&sym("USDC"), &sym("EURC"), 0);
}

#[test]
fn test_schema_version_migration() {
    let (client, _admin) = setup();
    assert_eq!(client.get_schema_version(), 1);
    client.migrate_v1_to_v2();
    assert_eq!(client.get_schema_version(), 2);
}

#[test]
#[should_panic(expected = "Error(Contract, #13)")]
fn test_schema_migration_rejects_second_run() {
    let (client, _admin) = setup();
    client.migrate_v1_to_v2();
    client.migrate_v1_to_v2();
}

#[test]
fn test_pause_and_unpause_round_trip() {
    let (client, _admin) = setup();
    assert!(!client.is_paused());
    client.pause();
    assert!(client.is_paused());
    client.unpause();
    assert!(!client.is_paused());
}

#[test]
#[should_panic(expected = "Error(Contract, #9)")]
fn test_register_pair_rejects_when_paused() {
    let (client, _admin) = setup();
    client.pause();
    client.register_pair(&sym("USDC"), &sym("EURC"));
}

/// The emergency stop must block route accounting: while paused,
/// `compute_route_fee` panics with `ContractPaused` (code 9) and never
/// touches the counter / timestamp.
#[test]
#[should_panic(expected = "Error(Contract, #9)")]
fn test_compute_route_fee_rejects_when_paused() {
    let (client, _admin) = setup();
    client.register_pair(&sym("USDC"), &sym("EURC"));
    client.set_pair_fee_bps(&sym("USDC"), &sym("EURC"), 50);
    client.pause();
    client.compute_route_fee(&sym("USDC"), &sym("EURC"), 1_000_000);
}

/// Routing resumes cleanly after an unpause, and no route was recorded
/// during the paused window.
#[test]
fn test_compute_route_fee_resumes_after_unpause() {
    let (client, _admin) = setup();
    client.register_pair(&sym("USDC"), &sym("EURC"));
    client.set_pair_fee_bps(&sym("USDC"), &sym("EURC"), 50);
    client.pause();
    client.unpause();
    let fee = client.compute_route_fee(&sym("USDC"), &sym("EURC"), 1_000_000);
    assert_eq!(fee, 5_000);
    assert_eq!(client.get_total_routes_all_time(), 1);
}

/// Read-only quotes stay available while paused (documented policy:
/// block state-mutating routes, keep quotes open for planning).
#[test]
fn test_quote_route_allowed_while_paused() {
    let (client, _admin) = setup();
    client.register_pair(&sym("USDC"), &sym("EURC"));
    client.set_pair_fee_bps(&sym("USDC"), &sym("EURC"), 100);
    client.pause();
    assert_eq!(client.quote_route(&sym("USDC"), &sym("EURC"), 1_000), (10, 990));
}

#[test]
fn test_admin_transfer_flow() {
    let (client, _admin) = setup();
    let next_admin = address("next_admin");
    client.propose_admin_transfer(&next_admin);
    assert_eq!(client.get_pending_admin(), Some(next_admin.clone()));
    client.accept_admin_transfer(&next_admin);
    assert_eq!(client.get_admin(), Some(next_admin));
    assert_eq!(client.get_pending_admin(), None);
}

#[test]
fn test_cancel_admin_transfer_clears_pending_admin() {
    let (client, _admin) = setup();
    let next_admin = address("next_admin");
    client.propose_admin_transfer(&next_admin);
    client.cancel_admin_transfer();
    assert_eq!(client.get_pending_admin(), None);
    assert_eq!(client.get_pending_admin_eta(), None);
}

/// Timelock defaults to 0 (instant handover) when unset.
#[test]
fn test_timelock_defaults_to_zero() {
    let (client, _admin) = setup();
    assert_eq!(client.get_timelock(), 0);
}

/// With a delay set, accepting the handover before the eta is rejected
/// with TimelockNotElapsed (code 14).
#[test]
#[should_panic(expected = "Error(Contract, #14)")]
fn test_timelock_blocks_early_accept() {
    let (client, _admin) = setup();
    client.set_timestamp(1_000);
    client.set_timelock(100);
    let next_admin = address("next_admin");
    client.propose_admin_transfer(&next_admin);
    assert_eq!(client.get_pending_admin_eta(), Some(1_100));
    client.accept_admin_transfer(&next_admin); // still at t=1_000
}

/// After the delay elapses, the handover executes normally.
#[test]
fn test_timelock_allows_accept_after_delay() {
    let (client, _admin) = setup();
    client.set_timestamp(1_000);
    client.set_timelock(100);
    let next_admin = address("next_admin");
    client.propose_admin_transfer(&next_admin);
    client.set_timestamp(1_100);
    client.accept_admin_transfer(&next_admin);
    assert_eq!(client.get_admin(), Some(next_admin));
    assert_eq!(client.get_pending_admin_eta(), None);
}

/// Cancelling a queued transfer clears both the pending admin and eta.
#[test]
fn test_timelock_cancel_clears_queue() {
    let (client, _admin) = setup();
    client.set_timestamp(1_000);
    client.set_timelock(100);
    let next_admin = address("next_admin");
    client.propose_admin_transfer(&next_admin);
    client.cancel_admin_transfer();
    assert_eq!(client.get_pending_admin(), None);
    assert_eq!(client.get_pending_admin_eta(), None);
}

#[test]
#[should_panic(expected = "Error(Contract, #7)")]
fn test_accept_admin_transfer_rejects_missing_pending_admin() {
    let (client, _admin) = setup();
    let caller = address("caller");
    client.accept_admin_transfer(&caller);
}

#[test]
#[should_panic(expected = "Error(Contract, #8)")]
fn test_accept_admin_transfer_rejects_wrong_pending_admin() {
    let (client, _admin) = setup();
    let pending = address("pending");
    let caller = address("caller");
    client.propose_admin_transfer(&pending);
    client.accept_admin_transfer(&caller);
}

#[test]
fn test_fee_recipient_round_trip() {
    let (client, _admin) = setup();
    assert_eq!(client.get_fee_recipient(), None);
    let recipient = address("recipient");
    client.set_fee_recipient(&recipient);
    assert_eq!(client.get_fee_recipient(), Some(recipient));
}

#[test]
fn test_unregister_pair_removes_registration() {
    let (client, _admin) = setup();
    client.register_pair(&sym("USDC"), &sym("EURC"));
    client.unregister_pair(&sym("USDC"), &sym("EURC"));
    assert!(!client.is_pair_registered(&sym("USDC"), &sym("EURC")));
}

#[test]
fn test_pair_lifecycle_events_have_exact_payloads_and_counts() {
    let (client, admin) = setup();
    let src = sym("USDC");
    let dest = sym("EURC");

    assert_eq!(client.events("init"), vec![Event::Init(admin.clone())]);

    client.register_pair(&src, &dest);
    assert_eq!(
        client.events("pair_reg"),
        vec![Event::PairRegistered(src.clone(), dest.clone())]
    );

    client.set_pair_fee_bps(&src, &dest, 25);
    assert_eq!(
        client.events("fee_set"),
        vec![Event::FeeSet(src.clone(), dest.clone(), 25)]
    );

    client.set_pair_liquidity(&admin, &src, &dest, 1_000);
    assert_eq!(
        client.events("liq_set"),
        vec![Event::LiquiditySet(src.clone(), dest.clone(), 1_000)]
    );

    client.unregister_pair(&src, &dest);
    assert_eq!(
        client.events("unreg"),
        vec![Event::PairUnregistered(src.clone(), dest.clone())]
    );
    assert_eq!(
        client.events("cfg_clr"),
        vec![Event::ConfigCleared(src, dest)]
    );
}

#[test]
fn test_unregister_never_registered_pair_is_clean_noop_with_event() {
    let (client, _admin) = setup();
    let src = sym("USDC");
    let dest = sym("EURC");

    assert!(!client.is_pair_registered(&src, &dest));
    client.unregister_pair(&src, &dest);
    assert_eq!(
        client.all_events(),
        vec![
            Event::PairUnregistered(src.clone(), dest.clone()),
            Event::ConfigCleared(src.clone(), dest.clone()),
        ]
    );
    assert!(!client.is_pair_registered(&src, &dest));
}

#[test]
fn test_reregister_after_unregister_restores_pair_with_clean_config_defaults() {
    let (client, admin) = setup();
    let src = sym("USDC");
    let dest = sym("EURC");

    client.register_pair(&src, &dest);
    assert_eq!(client.events("pair_reg").len(), 1, "initial register should emit one pair_reg event");
    client.set_pair_fee_bps(&src, &dest, 42);
    client.set_pair_min_amount(&src, &dest, 10);
    client.set_pair_max_amount(&src, &dest, 1_000);
    client.set_pair_liquidity(&admin, &src, &dest, 500);
    client.unregister_pair(&src, &dest);
    assert_eq!(client.events("unreg").len(), 1, "single unregister should emit one unreg event");

    assert!(!client.is_pair_registered(&src, &dest));
    assert_eq!(client.get_pair_fee_bps(&src, &dest), 0);
    assert_eq!(client.get_pair_min_amount(&src, &dest), 0);
    assert_eq!(client.get_pair_max_amount(&src, &dest), i128::MAX);
    assert_eq!(client.get_pair_liquidity(&src, &dest), 0);

    client.register_pair(&src, &dest);
    assert_eq!(client.events("pair_reg").len(), 1, "re-register should emit one pair_reg event");

    assert!(client.is_pair_registered(&src, &dest));
    assert_eq!(client.get_pair_fee_bps(&src, &dest), 0);
    assert_eq!(client.get_pair_min_amount(&src, &dest), 0);
    assert_eq!(client.get_pair_max_amount(&src, &dest), i128::MAX);
    assert_eq!(client.get_pair_liquidity(&src, &dest), 0);
}

#[test]
fn test_pair_limits_liquidity_and_info_round_trip() {
    let (client, admin) = setup();
    client.register_pair(&sym("USDC"), &sym("EURC"));
    assert!(!client.is_pair_active(&sym("USDC"), &sym("EURC")));

    client.set_pair_fee_bps(&sym("USDC"), &sym("EURC"), 25);
    client.set_pair_min_amount(&sym("USDC"), &sym("EURC"), 10);
    client.set_pair_max_amount(&sym("USDC"), &sym("EURC"), 1_000);
    client.set_pair_liquidity(&admin, &sym("USDC"), &sym("EURC"), 500);

    assert_eq!(client.get_pair_min_amount(&sym("USDC"), &sym("EURC")), 10);
    assert_eq!(client.get_pair_max_amount(&sym("USDC"), &sym("EURC")), 1_000);
    assert_eq!(client.get_pair_liquidity(&sym("USDC"), &sym("EURC")), 500);
    assert!(client.is_pair_active(&sym("USDC"), &sym("EURC")));

    let info = client.get_pair_info(&sym("USDC"), &sym("EURC"));
    assert_eq!(
        info,
        PairInfo {
            registered: true,
            fee_bps: 25,
            min_amount: 10,
            max_amount: 1_000,
            liquidity: 500,
            last_route_at: 0,
        }
    );
}

#[test]
fn test_quote_route_and_compute_route_update_counters() {
    let (client, _admin) = setup();
    client.register_pair(&sym("USDC"), &sym("EURC"));
    client.set_pair_fee_bps(&sym("USDC"), &sym("EURC"), 100);

    assert_eq!(client.quote_route(&sym("USDC"), &sym("EURC"), 1_000), (10, 990));
    assert_eq!(client.get_total_routes_all_time(), 0);

    assert_eq!(client.compute_route_fee(&sym("USDC"), &sym("EURC"), 1_000), 10);
    assert_eq!(client.get_total_routes_all_time(), 1);
    assert_eq!(client.get_pair_last_route_at(&sym("USDC"), &sym("EURC")), Some(0));
}

#[test]
#[should_panic(expected = "Error(Contract, #6)")]
fn test_quote_route_rejects_zero_amount() {
    let (client, _admin) = setup();
    client.register_pair(&sym("USDC"), &sym("EURC"));
    client.quote_route(&sym("USDC"), &sym("EURC"), 0);
}

#[test]
#[should_panic(expected = "Error(Contract, #5)")]
fn test_quote_route_rejects_unregistered_pair() {
    let (client, _admin) = setup();
    client.quote_route(&sym("USDC"), &sym("EURC"), 1_000);
}

#[test]
#[should_panic(expected = "Error(Contract, #10)")]
fn test_compute_route_fee_rejects_below_minimum() {
    let (client, _admin) = setup();
    client.register_pair(&sym("USDC"), &sym("EURC"));
    client.set_pair_min_amount(&sym("USDC"), &sym("EURC"), 10);
    client.compute_route_fee(&sym("USDC"), &sym("EURC"), 9);
}

#[test]
#[should_panic(expected = "Error(Contract, #11)")]
fn test_compute_route_fee_rejects_above_maximum() {
    let (client, _admin) = setup();
    client.register_pair(&sym("USDC"), &sym("EURC"));
    client.set_pair_max_amount(&sym("USDC"), &sym("EURC"), 10);
    client.compute_route_fee(&sym("USDC"), &sym("EURC"), 11);
}

#[test]
#[should_panic(expected = "Error(Contract, #12)")]
fn test_compute_route_fee_rejects_insufficient_liquidity() {
    let (client, admin) = setup();
    client.register_pair(&sym("USDC"), &sym("EURC"));
    client.set_pair_liquidity(&admin, &sym("USDC"), &sym("EURC"), 10);
    client.compute_route_fee(&sym("USDC"), &sym("EURC"), 11);
}

#[test]
#[should_panic(expected = "Error(Contract, #6)")]
fn test_set_pair_liquidity_rejects_negative_value() {
    let (client, admin) = setup();
    client.set_pair_liquidity(&admin, &sym("USDC"), &sym("EURC"), -1);
}

/// The oracle (a non-admin) can update pair liquidity.
#[test]
fn test_oracle_can_update_liquidity() {
    let (client, _admin) = setup();
    let oracle = address("oracle");
    client.set_oracle(&oracle);
    assert_eq!(client.get_oracle(), Some(oracle.clone()));
    client.register_pair(&sym("USDC"), &sym("EURC"));
    client.set_pair_liquidity(&oracle, &sym("USDC"), &sym("EURC"), 777);
    assert_eq!(client.get_pair_liquidity(&sym("USDC"), &sym("EURC")), 777);
}

/// Admin retains the ability to update liquidity directly.
#[test]
fn test_admin_can_still_update_liquidity() {
    let (client, admin) = setup();
    let oracle = address("oracle");
    client.set_oracle(&oracle);
    client.register_pair(&sym("USDC"), &sym("EURC"));
    client.set_pair_liquidity(&admin, &sym("USDC"), &sym("EURC"), 10);
    assert_eq!(client.get_pair_liquidity(&sym("USDC"), &sym("EURC")), 10);
}

/// A caller that is neither admin nor oracle is rejected with
/// NotAuthorized (code 15).
#[test]
#[should_panic(expected = "Error(Contract, #15)")]
fn test_random_caller_cannot_update_liquidity() {
    let (client, _admin) = setup();
    let stranger = address("stranger");
    client.set_pair_liquidity(&stranger, &sym("USDC"), &sym("EURC"), 1);
}

/// The oracle role is strictly scoped: the oracle cannot set the
/// oracle (an admin-only governance action).
#[test]
#[should_panic(expected = "Error(Auth, InvalidAction)")]
fn test_oracle_cannot_call_admin_entrypoint() {
    let admin = address("admin");
    let oracle = address("oracle");
    let client = Client::deploy(&admin);
    client.set_oracle(&oracle);
    // Oracle attempts an admin-only action (pause). Authorize only the
    // oracle so admin.require_auth() must fail.
    client.signed_only_by(&oracle);
    client.pause();
}

/// End-to-end revocation flow: the oracle can update liquidity while
/// configured, and is fully locked out after `remove_oracle`.
#[test]
fn test_oracle_can_update_before_removal_but_not_after() {
    let (client, _admin) = setup();
    let oracle = address("oracle");
    client.set_oracle(&oracle);
    client.register_pair(&sym("USDC"), &sym("EURC"));

    // Before removal the oracle drives the liquidity feed.
    client.set_pair_liquidity(&oracle, &sym("USDC"), &sym("EURC"), 500);
    assert_eq!(client.get_pair_liquidity(&sym("USDC"), &sym("EURC")), 500);

    client.remove_oracle();
    assert_eq!(client.get_oracle(), None);

    // After removal the same key is rejected with NotAuthorized (code 15).
    let err = client.try_set_pair_liquidity(&oracle, &sym("USDC"), &sym("EURC"), 999);
    assert_eq!(err, Err(Rejection::Contract(RouterError::NotAuthorized)));
    // The blocked call left the last accepted value untouched.
    assert_eq!(client.get_pair_liquidity(&sym("USDC"), &sym("EURC")), 500);
}

/// A revoked oracle is rejected with exactly NotAuthorized (code 15):
/// the same code any other stranger gets.
#[test]
#[should_panic(expected = "Error(Contract, #15)")]
fn test_removed_oracle_rejected_with_not_authorized() {
    let (client, _admin) = setup();
    let oracle = address("oracle");
    client.set_oracle(&oracle);
    client.register_pair(&sym("USDC"), &sym("EURC"));
    client.remove_oracle();
    client.set_pair_liquidity(&oracle, &sym("USDC"), &sym("EURC"), 1);
}

/// The admin keeps the liquidity feed after the oracle is revoked:
/// the dual-auth check degrades to admin-only when the slot is absent.
#[test]
fn test_admin_can_still_update_liquidity_after_removal() {
    let (client, admin) = setup();
    let oracle = address("oracle");
    client.set_oracle(&oracle);
    client.register_pair(&sym("USDC"), &sym("EURC"));
    client.remove_oracle();
    client.set_pair_liquidity(&admin, &sym("USDC"), &sym("EURC"), 42);
    assert_eq!(client.get_pair_liquidity(&sym("USDC"), &sym("EURC")), 42);
}

/// Removal is idempotent: removing when a previous removal (or nothing)
/// left the slot empty is a clean no-op and the getter stays None.
#[test]
fn test_remove_oracle_is_idempotent() {
    let (client, _admin) = setup();
    // Remove when never set: clean no-op.
    assert_eq!(client.get_oracle(), None);
    client.remove_oracle();
    assert_eq!(client.get_oracle(), None);
    // Set, remove, then remove again: second removal is also a no-op.
    let oracle = address("oracle");
    client.set_oracle(&oracle);
    client.remove_oracle();
    client.remove_oracle();
    assert_eq!(client.get_oracle(), None);
}

/// Each removal publishes one `orac_rm` event with the oracle that was set.
#[test]
fn test_remove_oracle_emits_orac_rm_event() {
    let (client, _admin) = setup();
    let oracle = address("oracle");
    client.set_oracle(&oracle);
    client.remove_oracle();
    assert_eq!(
        client.events("orac_rm"),
        vec![Event::OracleRemoved(Some(oracle))]
    );
}

/// A removal where no oracle is set publishes `orac_rm` too, with `None`.
#[test]
fn test_remove_oracle_noop_emits_event_with_none() {
    let (client, _admin) = setup();
    client.remove_oracle();
    assert_eq!(client.events("orac_rm"), vec![Event::OracleRemoved(None)]);
}

/// After removal the oracle can be set again (rotation to a fresh key
/// once the incident is resolved).
#[test]
fn test_oracle_can_be_reconfigured_after_removal() {
    let (client, _admin) = setup();
    let compromised = address("compromised");
    client.set_oracle(&compromised);
    client.remove_oracle();
    let fresh = address("fresh");
    client.set_oracle(&fresh);
    assert_eq!(client.get_oracle(), Some(fresh.clone()));
    client.register_pair(&sym("USDC"), &sym("EURC"));
    client.set_pair_liquidity(&fresh, &sym("USDC"), &sym("EURC"), 7);
    assert_eq!(client.get_pair_liquidity(&sym("USDC"), &sym("EURC")), 7);
}

/// `remove_oracle` is admin-gated: a caller without the admin's auth
/// is rejected, so a compromised oracle cannot un-revoke itself or
/// grief the admin by clearing the slot.
#[test]
#[should_panic(expected = "Error(Auth, InvalidAction)")]
fn test_remove_oracle_requires_admin_auth() {
    let admin = address("admin");
    let oracle = address("oracle");
    let client = Client::deploy(&admin);
    client.set_oracle(&oracle);
    // Authorize only the oracle so admin.require_auth() must fail.
    client.signed_only_by(&oracle);
    client.remove_oracle();
}

/// Missing-admin path reuses NotInitialized (code 2), like every other
/// admin-gated entrypoint.
#[test]
#[should_panic(expected = "Error(Contract, #2)")]
fn test_remove_oracle_panics_when_uninitialized() {
    let (client, _admin) = setup();
    client.forget(&DataKey::Admin);
    client.remove_oracle();
}

#[test]
#[should_panic(expected = "Error(Contract, #6)")]
fn test_set_pair_max_amount_rejects_zero() {
    let (client, _admin) = setup();
    client.set_pair_max_amount(&sym("USDC"), &sym("EURC"), 0);
}

#[test]
#[should_panic(expected = "Error(Contract, #6)")]
fn test_set_pair_min_amount_rejects_negative_value() {
    let (client, _admin) = setup();
    client.set_pair_min_amount(&sym("USDC"), &sym("EURC"), -1);
}

#[test]
fn test_compute_route_fee_emits_route_event_with_payload() {
    let src = sym("USDC");
    let dest = sym("EURC");
    let amount: i128 = 1_000_000;
    let client = setup_routable_pair(&src, &dest, 50);

    client.compute_route_fee(&src, &dest, amount);

    // Exactly one `route` event, carrying (source, destination, amount).
    assert_eq!(
        client.events("route"),
        vec![Event::Route(src, dest, amount)]
    );
}

#[test]
fn test_compute_route_fee_stamps_pair_last_route_at() {
    let src = sym("USDC");
    let dest = sym("EURC");
    let client = setup_routable_pair(&src, &dest, 50);

    // None before any route touches the pair.
    assert_eq!(client.get_pair_last_route_at(&src, &dest), None);

    client.set_timestamp(12345);
    client.compute_route_fee(&src, &dest, 1_000);

    assert_eq!(client.get_pair_last_route_at(&src, &dest), Some(12345));
}

#[test]
fn test_compute_route_fee_counter_is_global_across_pairs() {
    // Pair A.
    let a_src = sym("USDC");
    let a_dest = sym("EURC");
    let client = setup_routable_pair(&a_src, &a_dest, 50);
    // Pair B (different pair) registered on the same contract instance.
    let b_src = sym("XLM");
    let b_dest = sym("USDC");
    client.register_pair(&b_src, &b_dest);
    client.set_pair_fee_bps(&b_src, &b_dest, 50);

    assert_eq!(client.get_total_routes_all_time(), 0);
    client.compute_route_fee(&a_src, &a_dest, 1_000);
    assert_eq!(client.get_total_routes_all_time(), 1);
    client.compute_route_fee(&b_src, &b_dest, 1_000);
    // The lifetime counter is protocol-wide, not per-pair.
    assert_eq!(client.get_total_routes_all_time(), 2);
}

#[test]
fn test_quote_route_does_not_mutate_counter_or_emit_route_event() {
    let src = sym("USDC");
    let dest = sym("EURC");
    let client = setup_routable_pair(&src, &dest, 100);

    let routes_before = client.get_total_routes_all_time();
    let route_events_before = client.events("route").len();

    let (fee, net) = client.quote_route(&src, &dest, 1_000);
    assert_eq!((fee, net), (10, 990));

    // quote_route is read-only: counter unchanged, no new `route` event.
    assert_eq!(client.get_total_routes_all_time(), routes_before);
    assert_eq!(client.events("route").len(), route_events_before);
}

/// An admin-gated entrypoint rejects a caller that is not the admin.
#[test]
#[should_panic(expected = "Error(Auth, InvalidAction)")]
fn test_require_admin_rejects_unauthorized_caller() {
    let admin = address("admin");
    let attacker = address("attacker");
    // Deploy with the real admin set atomically by the constructor.
    let client = Client::deploy(&admin);
    // Now call pause as the attacker: only the attacker is authorized,
    // so admin.require_auth() inside pause must fail.
    client.signed_only_by(&attacker);
    client.pause(); // must panic: admin.require_auth() fails for attacker
}

/// The constructor sets the admin atomically at deploy time: there is
/// no deployed-but-uninitialized window.
#[test]
fn test_constructor_sets_admin_at_deploy() {
    let (client, admin) = setup();
    assert_eq!(client.get_admin(), Some(admin));
}

/// An attacker who observes the freshly deployed router cannot seize
/// the admin role by calling `init`: it always rejects with
/// AlreadyInitialized (code 1) because the slot is already populated.
#[test]
#[should_panic(expected = "Error(Contract, #1)")]
fn test_attacker_cannot_seize_admin_via_init() {
    let (client, _admin) = setup();
    let attacker = address("attacker");
    client.init(&attacker);
}

/// `version()` is the fixed contract identity tag and must be entirely
/// independent of `get_schema_version()`: migrating the storage schema
/// from v1 to v2 advances the schema number but never the version tag.
#[test]
fn test_version_is_independent_of_schema_version() {
    let (client, _admin) = setup();
    // Version tag and schema number start at known, distinct values.
    assert_eq!(client.version(), sym("ROUTER_V2"));
    assert_eq!(client.get_schema_version(), 1);

    client.migrate_v1_to_v2();

    // Schema advanced 1 -> 2, but the version tag is unchanged.
    assert_eq!(client.get_schema_version(), 2);
    assert_eq!(client.version(), sym("ROUTER_V2"));
}


#[test]
fn test_liquidity_decremented_by_amount_after_route() {
    let (client, admin, s, d) = setup_liquidity_pair();
    client.set_pair_liquidity(&admin, &s, &d, 1_000);
    assert_eq!(client.get_pair_liquidity(&s, &d), 1_000);

    let _fee = client.compute_route_fee(&s, &d, 300);
    assert_eq!(client.get_pair_liquidity(&s, &d), 700);
}

#[test]
fn test_exact_liquidity_route_consumes_all() {
    let (client, admin, s, d) = setup_liquidity_pair();
    client.set_pair_liquidity(&admin, &s, &d, 500);

    let _fee = client.compute_route_fee(&s, &d, 500);
    assert_eq!(client.get_pair_liquidity(&s, &d), 0);
}

#[test]
fn test_repeated_routes_exhaust_liquidity() {
    let (client, admin, s, d) = setup_liquidity_pair();
    client.set_pair_liquidity(&admin, &s, &d, 100);

    client.compute_route_fee(&s, &d, 40);
    assert_eq!(client.get_pair_liquidity(&s, &d), 60);

    client.compute_route_fee(&s, &d, 30);
    assert_eq!(client.get_pair_liquidity(&s, &d), 30);

    client.compute_route_fee(&s, &d, 30);
    assert_eq!(client.get_pair_liquidity(&s, &d), 0);

    let err = client.try_compute_route_fee(&s, &d, 1);
    assert_eq!(err, Err(Rejection::Contract(RouterError::InsufficientLiquidity)));
}

#[test]
fn test_insufficient_liquidity_after_partial_consume() {
    let (client, admin, s, d) = setup_liquidity_pair();
    client.set_pair_liquidity(&admin, &s, &d, 100);

    client.compute_route_fee(&s, &d, 60);
    assert_eq!(client.get_pair_liquidity(&s, &d), 40);

    let err = client.try_compute_route_fee(&s, &d, 50);
    assert_eq!(err, Err(Rejection::Contract(RouterError::InsufficientLiquidity)));
    assert_eq!(client.get_pair_liquidity(&s, &d), 40);
}

#[test]
fn test_unset_liquidity_stays_unbounded() {
    let (client, _admin, s, d) = setup_liquidity_pair();
    assert_eq!(client.get_pair_liquidity(&s, &d), 0);
    let _fee = client.compute_route_fee(&s, &d, 1_000_000);
    assert_eq!(client.get_pair_liquidity(&s, &d), 0);
    assert_eq!(client.events("liq_used").len(), 0);
}

#[test]
fn test_liq_used_event_emitted_with_remaining() {
    let (client, admin, s, d) = setup_liquidity_pair();
    client.set_pair_liquidity(&admin, &s, &d, 1_000);

    client.compute_route_fee(&s, &d, 300);

    assert_eq!(
        client.events("liq_used"),
        vec![Event::LiquidityUsed(s, d, 700)]
    );
}

#[test]
fn test_oracle_top_up_after_consumption() {
    let (client, admin, s, d) = setup_liquidity_pair();
    client.set_pair_liquidity(&admin, &s, &d, 500);

    client.compute_route_fee(&s, &d, 300);
    assert_eq!(client.get_pair_liquidity(&s, &d), 200);

    client.set_pair_liquidity(&admin, &s, &d, 1_000);
    assert_eq!(client.get_pair_liquidity(&s, &d), 1_000);

    let _fee = client.compute_route_fee(&s, &d, 800);
    assert_eq!(client.get_pair_liquidity(&s, &d), 200);
}

#[test]
fn test_zero_liquidity_after_drain_allows_top_up() {
    let (client, admin, s, d) = setup_liquidity_pair();
    client.set_pair_liquidity(&admin, &s, &d, 100);

    client.compute_route_fee(&s, &d, 100);
    assert_eq!(client.get_pair_liquidity(&s, &d), 0);

    let err = client.try_compute_route_fee(&s, &d, 1);
    assert_eq!(err, Err(Rejection::Contract(RouterError::InsufficientLiquidity)));

    client.set_pair_liquidity(&admin, &s, &d, 50);
    let _fee = client.compute_route_fee(&s, &d, 50);
    assert_eq!(client.get_pair_liquidity(&s, &d), 0);
}

#[test]
fn test_liq_used_event_not_emitted_for_unset() {
    let (client, _admin, s, d) = setup_liquidity_pair();

    let _fee = client.compute_route_fee(&s, &d, 999_999);

    assert_eq!(client.events("liq_used").len(), 0);
}

#[test]
fn test_liq_used_and_route_both_emitted() {
    let (client, admin, s, d) = setup_liquidity_pair();
    client.set_pair_liquidity(&admin, &s, &d, 500);

    client.compute_route_fee(&s, &d, 200);

    assert_eq!(
        client.events("liq_used"),
        vec![Event::LiquidityUsed(s.clone(), d.clone(), 300)]
    );
    assert_eq!(client.events("route"), vec![Event::Route(s, d, 200)]);
}

#[test]
fn test_cooldown_blocked_route_has_no_business_side_effects() {
    let (client, admin, s, d) = setup_liquidity_pair();
    client.set_pair_liquidity(&admin, &s, &d, 1_000);
    client.set_pair_cooldown(&s, &d, 60);

    client.set_timestamp(1_000);
    client.compute_route_fee(&s, &d, 100);

    assert_eq!(client.get_pair_liquidity(&s, &d), 900);
    assert_eq!(client.get_pair_route_count(&s, &d), 1);
    assert_eq!(client.get_pair_volume(&s, &d), 100);
    assert_eq!(client.get_pair_last_route_at(&s, &d), Some(1_000));
    let liq_events_before = client.events("liq_used").len();
    let route_events_before = client.events("route").len();

    client.set_timestamp(1_030);
    let err = client.try_compute_route_fee(&s, &d, 200);

    assert_eq!(err, Err(Rejection::Contract(RouterError::RouteCooldownActive)));
    assert_eq!(client.get_pair_liquidity(&s, &d), 900);
    assert_eq!(client.get_pair_route_count(&s, &d), 1);
    assert_eq!(client.get_pair_volume(&s, &d), 100);
    assert_eq!(client.get_pair_last_route_at(&s, &d), Some(1_000));
    assert_eq!(client.events("liq_used").len(), liq_events_before);
    assert_eq!(client.events("route").len(), route_events_before);
}

#[test]
fn test_multiple_pairs_independent_liquidity() {
    let (client, admin) = setup();
    let a_src = sym("USDC");
    let a_dst = sym("EURC");
    let b_src = sym("XLM");
    let b_dst = sym("USDC");
    client.register_pair(&a_src, &a_dst);
    client.register_pair(&b_src, &b_dst);
    client.set_pair_fee_bps(&a_src, &a_dst, 10);
    client.set_pair_fee_bps(&b_src, &b_dst, 10);
    client.set_pair_liquidity(&admin, &a_src, &a_dst, 500);
    client.set_pair_liquidity(&admin, &b_src, &b_dst, 300);

    client.compute_route_fee(&a_src, &a_dst, 200);
    assert_eq!(client.get_pair_liquidity(&a_src, &a_dst), 300);
    assert_eq!(client.get_pair_liquidity(&b_src, &b_dst), 300);

    client.compute_route_fee(&b_src, &b_dst, 100);
    assert_eq!(client.get_pair_liquidity(&a_src, &a_dst), 300);
    assert_eq!(client.get_pair_liquidity(&b_src, &b_dst), 200);
}

#[test]
fn test_saturating_sub_never_underflows() {
    let (client, admin, s, d) = setup_liquidity_pair();
    client.set_pair_liquidity(&admin, &s, &d, 1);

    let _fee = client.compute_route_fee(&s, &d, 1);
    assert_eq!(client.get_pair_liquidity(&s, &d), 0);
}

#[test]
#[should_panic(expected = "Error(Contract, #5)")]
fn test_set_pair_fee_bps_rejects_unregistered_pair() {
    let (client, _admin) = setup();
    client.set_pair_fee_bps(&sym("USDC"), &sym("EURC"), 50);
}

#[test]
fn test_set_pair_fee_bps_succeeds_after_register() {
    let (client, _admin) = setup();
    let (s, d) = (sym("USDC"), sym("EURC"));
    client.register_pair(&s, &d);
    client.set_pair_fee_bps(&s, &d, 50);
    assert_eq!(client.get_pair_fee_bps(&s, &d), 50);
}

#[test]
#[should_panic(expected = "Error(Contract, #5)")]
fn test_set_pair_fee_bps_rejects_after_unregister() {
    let (client, _admin) = setup();
    let (s, d) = (sym("USDC"), sym("EURC"));
    client.register_pair(&s, &d);
    client.unregister_pair(&s, &d);
    client.set_pair_fee_bps(&s, &d, 50);
}

#[test]
#[should_panic(expected = "Error(Contract, #5)")]
fn test_set_pair_min_amount_rejects_unregistered_pair() {
    let (client, _admin) = setup();
    client.set_pair_min_amount(&sym("USDC"), &sym("EURC"), 10);
}

#[test]
fn test_set_pair_min_amount_succeeds_after_register() {
    let (client, _admin) = setup();
    let (s, d) = (sym("USDC"), sym("EURC"));
    client.register_pair(&s, &d);
    client.set_pair_min_amount(&s, &d, 10);
    assert_eq!(client.get_pair_min_amount(&s, &d), 10);
}

#[test]
#[should_panic(expected = "Error(Contract, #5)")]
fn test_set_pair_min_amount_rejects_after_unregister() {
    let (client, _admin) = setup();
    let (s, d) = (sym("USDC"), sym("EURC"));
    client.register_pair(&s, &d);
    client.unregister_pair(&s, &d);
    client.set_pair_min_amount(&s, &d, 10);
}

#[test]
#[should_panic(expected = "Error(Contract, #5)")]
fn test_set_pair_max_amount_rejects_unregistered_pair() {
    let (client, _admin) = setup();
    client.set_pair_max_amount(&sym("USDC"), &sym("EURC"), 1_000);
}

#[test]
fn test_set_pair_max_amount_succeeds_after_register() {
    let (client, _admin) = setup();
    let (s, d) = (sym("USDC"), sym("EURC"));
    client.register_pair(&s, &d);
    client.set_pair_max_amount(&s, &d, 1_000);
    assert_eq!(client.get_pair_max_amount(&s, &d), 1_000);
}

#[test]
#[should_panic(expected = "Error(Contract, #5)")]
fn test_set_pair_max_amount_rejects_after_unregister() {
    let (client, _admin) = setup();
    let (s, d) = (sym("USDC"), sym("EURC"));
    client.register_pair(&s, &d);
    client.unregister_pair(&s, &d);
    client.set_pair_max_amount(&s, &d, 1_000);
}

#[test]
#[should_panic(expected = "Error(Contract, #5)")]
fn test_set_pair_liquidity_rejects_unregistered_pair() {
    let (client, admin) = setup();
    client.set_pair_liquidity(&admin, &sym("USDC"), &sym("EURC"), 500);
}

#[test]
fn test_set_pair_liquidity_succeeds_after_register() {
    let (client, admin) = setup();
    let (s, d) = (sym("USDC"), sym("EURC"));
    client.register_pair(&s, &d);
    client.set_pair_liquidity(&admin, &s, &d, 500);
    assert_eq!(client.get_pair_liquidity(&s, &d), 500);
}

#[test]
#[should_panic(expected = "Error(Contract, #5)")]
fn test_set_pair_liquidity_rejects_after_unregister() {
    let (client, admin) = setup();
    let (s, d) = (sym("USDC"), sym("EURC"));
    client.register_pair(&s, &d);
    client.unregister_pair(&s, &d);
    client.set_pair_liquidity(&admin, &s, &d, 500);
}

/// The sign check fires for an unregistered pair too: it runs before the
/// registration check, so callers get the more specific error first.
#[test]
#[should_panic(expected = "Error(Contract, #6)")]
fn test_set_pair_liquidity_negative_check_precedes_registration_check() {
    let (client, admin) = setup();
    client.set_pair_liquidity(&admin, &sym("USDC"), &sym("EURC"), -1);
}

#[test]
fn test_is_paused_defaults_false_and_toggles() {
    let (client, _admin) = setup();
    assert!(!client.is_paused());
    client.pause();
    assert!(client.is_paused());
    client.unpause();
    assert!(!client.is_paused());
}

#[test]
fn test_pause_emits_event() {
    let (client, _admin) = setup();
    client.pause();
    // pause() publishes a `paused` event; assert one was emitted.
    assert!(!client.events("paused").is_empty());
}

#[test]
#[should_panic(expected = "Error(Contract, #9)")]
fn test_register_pair_rejected_while_paused() {
    let (client, _admin) = setup();
    client.pause();
    client.register_pair(&sym("USDC"), &sym("EURC"));
}

#[test]
#[should_panic(expected = "Error(Contract, #9)")]
fn test_set_pair_fee_bps_rejected_while_paused() {
    let (client, _admin) = setup();
    client.register_pair(&sym("USDC"), &sym("EURC"));
    client.pause();
    client.set_pair_fee_bps(&sym("USDC"), &sym("EURC"), 10);
}

#[test]
fn test_gated_entrypoint_succeeds_after_unpause() {
    let (client, _admin) = setup();
    client.pause();
    client.unpause();
    client.register_pair(&sym("USDC"), &sym("EURC"));
    assert!(client.is_pair_registered(&sym("USDC"), &sym("EURC")));
}

#[test]
fn test_double_pause_and_double_unpause_idempotent() {
    let (client, _admin) = setup();
    client.pause();
    client.pause();
    assert!(client.is_paused());
    client.unpause();
    client.unpause();
    assert!(!client.is_paused());
}

#[test]
fn test_min_amount_at_bound_is_accepted() {
    let (client, _admin, s, d) = setup_pair();
    client.set_pair_min_amount(&s, &d, 100);
    assert_eq!(client.get_pair_min_amount(&s, &d), 100);
    // Exactly at the floor is accepted (fee 0, no bps configured).
    assert_eq!(client.compute_route_fee(&s, &d, 100), 0);
}

#[test]
#[should_panic(expected = "Error(Contract, #10)")]
fn test_below_min_rejected() {
    let (client, _admin, s, d) = setup_pair();
    client.set_pair_min_amount(&s, &d, 100);
    client.compute_route_fee(&s, &d, 99);
}

#[test]
fn test_max_amount_at_bound_is_accepted() {
    let (client, _admin, s, d) = setup_pair();
    client.set_pair_max_amount(&s, &d, 1_000);
    assert_eq!(client.get_pair_max_amount(&s, &d), 1_000);
    assert_eq!(client.compute_route_fee(&s, &d, 1_000), 0);
}

#[test]
#[should_panic(expected = "Error(Contract, #11)")]
fn test_above_max_rejected() {
    let (client, _admin, s, d) = setup_pair();
    client.set_pair_max_amount(&s, &d, 1_000);
    client.compute_route_fee(&s, &d, 1_001);
}

#[test]
fn test_liquidity_at_bound_is_accepted() {
    let (client, admin, s, d) = setup_pair();
    client.set_pair_liquidity(&admin, &s, &d, 500);
    assert_eq!(client.get_pair_liquidity(&s, &d), 500);
    // amount == reported liquidity is allowed.
    assert_eq!(client.compute_route_fee(&s, &d, 500), 0);
}

#[test]
#[should_panic(expected = "Error(Contract, #12)")]
fn test_above_liquidity_rejected() {
    let (client, admin, s, d) = setup_pair();
    client.set_pair_liquidity(&admin, &s, &d, 500);
    client.compute_route_fee(&s, &d, 501);
}

#[test]
fn test_unset_bounds_behave_as_unbounded() {
    let (client, _admin, s, d) = setup_pair();
    // Defaults: min 0, max i128::MAX, liquidity unset => unbounded.
    assert_eq!(client.get_pair_min_amount(&s, &d), 0);
    assert_eq!(client.get_pair_max_amount(&s, &d), i128::MAX);
    assert_eq!(client.get_pair_liquidity(&s, &d), 0);
    assert_eq!(client.compute_route_fee(&s, &d, 1), 0);
}

#[test]
#[should_panic(expected = "Error(Contract, #6)")]
fn test_set_pair_liquidity_rejects_negative() {
    let (client, admin, s, d) = setup_pair();
    client.set_pair_liquidity(&admin, &s, &d, -1);
}

#[test]
fn test_overflow_path_returns_zero() {
    let (client, s, d) = setup_wide_pair();
    client.set_pair_fee_bps(&s, &d, 2);
    // 2 * i128::MAX overflows checked_mul, so the fee defaults to 0
    // instead of panicking.
    assert_eq!(client.compute_route_fee(&s, &d, i128::MAX), 0);
}

#[test]
fn test_truncating_division_rounds_toward_zero() {
    let (client, s, d) = setup_wide_pair();
    client.set_pair_fee_bps(&s, &d, 3);
    // 12_345 * 3 / 10_000 = 3.7035 -> truncates to 3.
    assert_eq!(client.compute_route_fee(&s, &d, 12_345), 3);
}

#[test]
fn test_quote_matches_compute_fee() {
    let (client, s, d) = setup_wide_pair();
    client.set_pair_fee_bps(&s, &d, 50);
    let (qfee, qnet) = client.quote_route(&s, &d, 1_000_000);
    let cfee = client.compute_route_fee(&s, &d, 1_000_000);
    assert_eq!(qfee, cfee);
    assert_eq!(qnet, 1_000_000 - qfee);
}

#[test]
fn test_route_counter_increments_and_never_panics() {
    let (client, s, d) = setup_wide_pair();
    client.set_pair_fee_bps(&s, &d, 10);
    assert_eq!(client.get_total_routes_all_time(), 0);
    client.compute_route_fee(&s, &d, 1_000);
    assert_eq!(client.get_total_routes_all_time(), 1);
    client.compute_route_fee(&s, &d, 1_000);
    assert_eq!(client.get_total_routes_all_time(), 2);
}

#[test]
fn test_schema_version_defaults_to_one() {
    let (client, _admin) = setup();
    assert_eq!(client.get_schema_version(), 1);
}

#[test]
fn test_migrate_advances_to_two() {
    let (client, _admin) = setup();
    client.migrate_v1_to_v2();
    assert_eq!(client.get_schema_version(), 2);
}

#[test]
#[should_panic(expected = "Error(Contract, #13)")]
fn test_double_migrate_rejected() {
    let (client, _admin) = setup();
    client.migrate_v1_to_v2();
    client.migrate_v1_to_v2();
}

#[test]
#[should_panic(expected = "Error(Auth, InvalidAction)")]
fn test_migrate_requires_admin_auth() {
    let client = setup_scoped();
    client.migrate_v1_to_v2();
}

#[test]
fn test_pair_info_defaults_for_unconfigured_pair() {
    let (client, _admin) = setup();
    let info = client.get_pair_info(&sym("USDC"), &sym("EURC"));
    assert_eq!(
        info,
        PairInfo {
            registered: false,
            fee_bps: 0,
            min_amount: 0,
            max_amount: i128::MAX,
            liquidity: 0,
            last_route_at: 0,
        }
    );
}

#[test]
fn test_pair_info_reflects_configuration() {
    let (client, admin) = setup();
    let (s, d) = (sym("USDC"), sym("EURC"));
    client.register_pair(&s, &d);
    client.set_pair_fee_bps(&s, &d, 25);
    client.set_pair_min_amount(&s, &d, 10);
    client.set_pair_max_amount(&s, &d, 1_000);
    let admin = client.get_admin().expect("constructor stores admin");
    client.set_pair_liquidity(&admin, &s, &d, 500);
    let info = client.get_pair_info(&s, &d);
    assert!(info.registered);
    assert_eq!(info.fee_bps, 25);
    assert_eq!(info.min_amount, 10);
    assert_eq!(info.max_amount, 1_000);
    assert_eq!(info.liquidity, 500);
}

#[test]
fn test_is_pair_active_requires_registration_and_liquidity() {
    let (client, admin) = setup();
    let (s, d) = (sym("USDC"), sym("EURC"));
    assert!(!client.is_pair_active(&s, &d));
    client.register_pair(&s, &d);
    // Registered but zero liquidity is still inactive.
    assert!(!client.is_pair_active(&s, &d));
    let admin = client.get_admin().expect("constructor stores admin");
    client.set_pair_liquidity(&admin, &s, &d, 1);
    assert!(client.is_pair_active(&s, &d));
}

#[test]
fn test_quote_route_is_non_mutating_and_matches_compute() {
    let (client, _admin) = setup();
    let (s, d) = (sym("USDC"), sym("EURC"));
    client.register_pair(&s, &d);
    client.set_pair_fee_bps(&s, &d, 100);
    let (qfee, _net) = client.quote_route(&s, &d, 1_000);
    // Quote leaves the counter and timestamp untouched.
    assert_eq!(client.get_total_routes_all_time(), 0);
    assert_eq!(client.get_pair_last_route_at(&s, &d), None);
    // And reports the same fee compute_route_fee would.
    assert_eq!(qfee, client.compute_route_fee(&s, &d, 1_000));
}

#[test]
fn test_last_route_at_none_before_some_after() {
    let (client, _admin) = setup();
    let (s, d) = (sym("USDC"), sym("EURC"));
    client.register_pair(&s, &d);
    client.set_timestamp(424_242);
    assert_eq!(client.get_pair_last_route_at(&s, &d), None);
    client.compute_route_fee(&s, &d, 1_000);
    assert_eq!(client.get_pair_last_route_at(&s, &d), Some(424_242));
}

#[test]
#[should_panic(expected = "Error(Auth, InvalidAction)")]
fn test_register_pair_requires_admin() {
    let client = setup_scoped();
    client.register_pair(&sym("USDC"), &sym("EURC"));
}

#[test]
#[should_panic(expected = "Error(Auth, InvalidAction)")]
fn test_unregister_pair_requires_admin() {
    let client = setup_scoped();
    client.unregister_pair(&sym("USDC"), &sym("EURC"));
}

#[test]
#[should_panic(expected = "Error(Auth, InvalidAction)")]
fn test_set_pair_fee_bps_requires_admin() {
    let client = setup_scoped();
    client.set_pair_fee_bps(&sym("USDC"), &sym("EURC"), 10);
}

#[test]
#[should_panic(expected = "Error(Auth, InvalidAction)")]
fn test_set_pair_liquidity_requires_admin() {
    let client = setup_scoped();
    let caller = address("caller");
    client.set_pair_liquidity(&caller, &sym("USDC"), &sym("EURC"), 10);
}

#[test]
#[should_panic(expected = "Error(Auth, InvalidAction)")]
fn test_set_pair_min_amount_requires_admin() {
    let client = setup_scoped();
    client.set_pair_min_amount(&sym("USDC"), &sym("EURC"), 1);
}

#[test]
#[should_panic(expected = "Error(Auth, InvalidAction)")]
fn test_set_pair_max_amount_requires_admin() {
    let client = setup_scoped();
    client.set_pair_max_amount(&sym("USDC"), &sym("EURC"), 1);
}

#[test]
#[should_panic(expected = "Error(Auth, InvalidAction)")]
fn test_set_fee_recipient_requires_admin() {
    let client = setup_scoped();
    client.set_fee_recipient(&address("somebody"));
}

#[test]
#[should_panic(expected = "Error(Auth, InvalidAction)")]
fn test_pause_requires_admin() {
    let client = setup_scoped();
    client.pause();
}

#[test]
#[should_panic(expected = "Error(Auth, InvalidAction)")]
fn test_unpause_requires_admin() {
    let client = setup_scoped();
    client.unpause();
}

#[test]
#[should_panic(expected = "Error(Auth, InvalidAction)")]
fn test_propose_admin_transfer_requires_admin() {
    let client = setup_scoped();
    client.propose_admin_transfer(&address("somebody"));
}

#[test]
#[should_panic(expected = "Error(Auth, InvalidAction)")]
fn test_migrate_requires_admin() {
    let client = setup_scoped();
    client.migrate_v1_to_v2();
}

/// Positive control: with the admin's auth supplied, the call succeeds.
#[test]
fn test_admin_can_register_with_auth() {
    let admin = address("admin");
    let client = Client::deploy(&admin);
    client.register_pair(&sym("USDC"), &sym("EURC"));
    assert!(client.is_pair_registered(&sym("USDC"), &sym("EURC")));
}

#[test]
fn test_no_absolute_cap_by_default() {
    let (client, s, d) = setup_priced_pair();
    assert_eq!(client.get_max_fee_absolute(), None);
    // 1_000_000 * 1% = 10_000, unclamped.
    assert_eq!(client.compute_route_fee(&s, &d, 1_000_000), 10_000);
}

#[test]
fn test_fee_below_cap_is_unaffected() {
    let (client, s, d) = setup_priced_pair();
    client.set_max_fee_absolute(50_000);
    assert_eq!(client.get_max_fee_absolute(), Some(50_000));
    // 10_000 < 50_000 -> unchanged.
    assert_eq!(client.compute_route_fee(&s, &d, 1_000_000), 10_000);
}

#[test]
fn test_fee_above_cap_is_clamped() {
    let (client, s, d) = setup_priced_pair();
    client.set_max_fee_absolute(5_000);
    // Proportional fee 10_000 clamped down to the 5_000 ceiling.
    assert_eq!(client.compute_route_fee(&s, &d, 1_000_000), 5_000);
}

#[test]
fn test_cap_of_zero_makes_routes_free() {
    let (client, s, d) = setup_priced_pair();
    client.set_max_fee_absolute(0);
    assert_eq!(client.compute_route_fee(&s, &d, 1_000_000), 0);
}

#[test]
fn test_quote_and_compute_agree_under_cap() {
    let (client, s, d) = setup_priced_pair();
    client.set_max_fee_absolute(5_000);
    let (qfee, qnet) = client.quote_route(&s, &d, 1_000_000);
    assert_eq!(qfee, 5_000);
    assert_eq!(qnet, 1_000_000 - 5_000);
    assert_eq!(qfee, client.compute_route_fee(&s, &d, 1_000_000));
}

#[test]
#[should_panic(expected = "Error(Contract, #6)")]
fn test_negative_cap_rejected() {
    let (client, _s, _d) = setup_priced_pair();
    client.set_max_fee_absolute(-1);
}

#[test]
fn test_register_pairs_happy_path() {
    let (client, _admin) = setup();
    client.register_pairs(vec![
        (sym("USDC"), sym("EURC")),
        (sym("XLM"), sym("USDC")),
        (sym("ETH"), sym("BTC")),
    ]);
    assert!(client.is_pair_registered(&sym("USDC"), &sym("EURC")));
    assert!(client.is_pair_registered(&sym("XLM"), &sym("USDC")));
    assert!(client.is_pair_registered(&sym("ETH"), &sym("BTC")));
}

#[test]
fn test_register_pairs_single_entry_succeeds() {
    let (client, _admin) = setup();
    client.register_pairs(vec![(sym("USDC"), sym("EURC"))]);
    assert!(client.is_pair_registered(&sym("USDC"), &sym("EURC")));
}

#[test]
#[should_panic(expected = "Error(Contract, #19)")]
fn test_register_pairs_rejects_empty_batch() {
    let (client, _admin) = setup();
    client.register_pairs(vec![]);
}

#[test]
#[should_panic(expected = "Error(Contract, #3)")]
fn test_register_pairs_atomic_rollback_on_identity() {
    let (client, _admin) = setup();
    client.register_pairs(vec![
        (sym("USDC"), sym("EURC")),
        (sym("XLM"), sym("XLM")),
        (sym("ETH"), sym("BTC")),
    ]);
}

#[test]
#[should_panic(expected = "Error(Contract, #9)")]
fn test_register_pairs_rejects_when_paused() {
    let (client, _admin) = setup();
    client.pause();
    client.register_pairs(vec![(sym("USDC"), sym("EURC"))]);
}

#[test]
#[should_panic(expected = "Error(Contract, #18)")]
fn test_register_pairs_rejects_too_large_batch() {
    let (client, _admin) = setup();
    let mut pairs = Vec::new();
    for i in 0..MAX_BATCH_SIZE + 1 {
        pairs.push((
            sym(&format!("SRC{}", i)),
            sym(&format!("DST{}", i)),
        ));
    }
    client.register_pairs(pairs);
}

#[test]
#[should_panic(expected = "Error(Contract, #2)")]
fn test_register_pairs_panics_when_uninitialized() {
    let client = setup_without_admin();
    client.register_pairs(vec![(sym("USDC"), sym("EURC"))]);
}

#[test]
fn test_set_pair_fees_bps_happy_path() {
    let (client, _admin) = setup();
    client.register_pairs(vec![
        (sym("USDC"), sym("EURC")),
        (sym("XLM"), sym("USDC")),
    ]);
    client.set_pair_fees_bps(vec![
        (sym("USDC"), sym("EURC"), 25),
        (sym("XLM"), sym("USDC"), 50),
    ]);
    assert_eq!(client.get_pair_fee_bps(&sym("USDC"), &sym("EURC")), 25);
    assert_eq!(client.get_pair_fee_bps(&sym("XLM"), &sym("USDC")), 50);
}

#[test]
fn test_set_pair_fees_bps_single_entry_succeeds() {
    let (client, _admin) = setup();
    client.register_pairs(vec![(sym("USDC"), sym("EURC"))]);
    client.set_pair_fees_bps(vec![(sym("USDC"), sym("EURC"), 25)]);
    assert_eq!(client.get_pair_fee_bps(&sym("USDC"), &sym("EURC")), 25);
}

#[test]
#[should_panic(expected = "Error(Contract, #19)")]
fn test_set_pair_fees_bps_rejects_empty_batch() {
    let (client, _admin) = setup();
    client.set_pair_fees_bps(vec![]);
}

#[test]
#[should_panic(expected = "Error(Contract, #4)")]
fn test_set_pair_fees_bps_atomic_rollback_on_high_fee() {
    let (client, _admin) = setup();
    client.register_pairs(vec![
        (sym("USDC"), sym("EURC")),
        (sym("XLM"), sym("USDC")),
    ]);
    client.set_pair_fees_bps(vec![
        (sym("USDC"), sym("EURC"), 25),
        (sym("XLM"), sym("USDC"), MAX_FEE_BPS + 1),
    ]);
}

#[test]
#[should_panic(expected = "Error(Contract, #5)")]
fn test_set_pair_fees_bps_rejects_unregistered_pair() {
    let (client, _admin) = setup();
    client.set_pair_fees_bps(vec![(sym("USDC"), sym("EURC"), 25)]);
}

#[test]
#[should_panic(expected = "Error(Contract, #9)")]
fn test_set_pair_fees_bps_rejects_when_paused() {
    let (client, _admin) = setup();
    client.register_pairs(vec![(sym("USDC"), sym("EURC"))]);
    client.pause();
    client.set_pair_fees_bps(vec![(sym("USDC"), sym("EURC"), 25)]);
}

#[test]
#[should_panic(expected = "Error(Contract, #18)")]
fn test_set_pair_fees_bps_rejects_too_large_batch() {
    let (client, _admin) = setup();
    let mut entries = Vec::new();
    for i in 0..MAX_BATCH_SIZE + 1 {
        entries.push((
            sym(&format!("SRC{}", i)),
            sym(&format!("DST{}", i)),
            10,
        ));
    }
    client.set_pair_fees_bps(entries);
}

#[test]
#[should_panic(expected = "Error(Contract, #2)")]
fn test_set_pair_fees_bps_panics_when_uninitialized() {
    let client = setup_without_admin();
    client.set_pair_fees_bps(vec![(sym("USDC"), sym("EURC"), 25)]);
}
