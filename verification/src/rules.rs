//! The rules of the contract: what each request is refused for, and what it
//! changes when it is accepted.

use vstd::prelude::*;
use crate::config::BPS_DENOMINATOR;
use crate::config::MAX_BATCH_SIZE;
use crate::config::MAX_COOLDOWN_SECS;
use crate::config::MAX_FEE_BPS;
use crate::error::Rejection;
use crate::error::RouterError;
use crate::event::Event;
use crate::ident::Address;
use crate::ident::Symbol;
use crate::invocation::InvocationView;
use crate::storage::address_at;
use crate::storage::bool_at;
use crate::storage::i128_at;
use crate::storage::u32_at;
use crate::storage::u64_at;
use crate::storage::DataKey;
use crate::storage::Slots;
use crate::storage::Value;

verus! {

/// Text of a symbol or of an address.
pub type Text = Seq<char>;

/// Why a request is refused; `None` where it is accepted.
pub type Refusal = Option<Rejection<Text>>;

// ---- What the slots say ----

/// Whether the router is paused.
pub open spec fn paused(slots: Slots) -> bool {
    bool_at(slots, DataKey::Paused).unwrap_or(false)
}

/// Whether a route is being recorded.
pub open spec fn locked(slots: Slots) -> bool {
    bool_at(slots, DataKey::ReentrancyLock).unwrap_or(false)
}

/// The admin, if one is set.
pub open spec fn admin(slots: Slots) -> Option<Text> {
    address_at(slots, DataKey::Admin)
}

/// The proposed admin, if a handover is pending.
pub open spec fn pending_admin(slots: Slots) -> Option<Text> {
    address_at(slots, DataKey::PendingAdmin)
}

/// Earliest ledger time at which the pending handover may be accepted.
pub open spec fn pending_admin_eta(slots: Slots) -> Option<u64> {
    u64_at(slots, DataKey::PendingAdminEta)
}

/// Governance delay of a handover, in seconds.
pub open spec fn timelock(slots: Slots) -> u64 {
    u64_at(slots, DataKey::Timelock).unwrap_or(0)
}

/// The liquidity oracle, if one is set.
pub open spec fn oracle(slots: Slots) -> Option<Text> {
    address_at(slots, DataKey::Oracle)
}

/// Version of the storage layout; the first one where none was stamped.
pub open spec fn schema_version(slots: Slots) -> u32 {
    u32_at(slots, DataKey::SchemaVersion).unwrap_or(1)
}

/// How many routes were ever recorded.
pub open spec fn total_routes(slots: Slots) -> u64 {
    u64_at(slots, DataKey::TotalRoutesAllTime).unwrap_or(0)
}

/// The absolute fee ceiling, if one is set.
pub open spec fn fee_ceiling(slots: Slots) -> Option<i128> {
    i128_at(slots, DataKey::MaxFeeAbsolute)
}

/// Whether the pair is a registered route.
pub open spec fn registered(slots: Slots, source: Text, destination: Text) -> bool {
    bool_at(slots, DataKey::Pair(source, destination)).unwrap_or(false)
}

/// Fee of the pair, in basis points; free where none was set.
pub open spec fn fee_bps(slots: Slots, source: Text, destination: Text) -> u32 {
    u32_at(slots, DataKey::PairFeeBps(source, destination)).unwrap_or(0)
}

/// Smallest routable amount.
pub open spec fn min_amount(slots: Slots, source: Text, destination: Text) -> i128 {
    i128_at(slots, DataKey::PairMinAmount(source, destination)).unwrap_or(0)
}

/// Largest routable amount; unbounded where none was set.
pub open spec fn max_amount(slots: Slots, source: Text, destination: Text) -> i128 {
    i128_at(slots, DataKey::PairMaxAmount(source, destination)).unwrap_or(i128::MAX)
}

/// Liquidity as reported to readers: nothing where none was reported.
pub open spec fn reported_liquidity(slots: Slots, source: Text, destination: Text) -> i128 {
    i128_at(slots, DataKey::PairLiquidity(source, destination)).unwrap_or(0)
}

/// Liquidity that a route may use: unbounded where none was reported.
pub open spec fn usable_liquidity(slots: Slots, source: Text, destination: Text) -> i128 {
    i128_at(slots, DataKey::PairLiquidity(source, destination)).unwrap_or(i128::MAX)
}

/// Ledger time of the pair's last route, if it was ever routed.
pub open spec fn last_route_at(slots: Slots, source: Text, destination: Text) -> Option<u64> {
    u64_at(slots, DataKey::PairLastRouteAt(source, destination))
}

/// Shortest gap between two routes of the pair, in seconds.
pub open spec fn cooldown(slots: Slots, source: Text, destination: Text) -> u64 {
    u64_at(slots, DataKey::PairCooldown(source, destination)).unwrap_or(0)
}

/// How many routes of the pair were ever recorded.
pub open spec fn route_count(slots: Slots, source: Text, destination: Text) -> u64 {
    u64_at(slots, DataKey::PairRouteCount(source, destination)).unwrap_or(0)
}

/// Sum of all amounts routed through the pair.
pub open spec fn volume(slots: Slots, source: Text, destination: Text) -> i128 {
    i128_at(slots, DataKey::PairVolume(source, destination)).unwrap_or(0)
}

// ---- Fees ----

/// `amount` at `bps` basis points, rounded down; nothing where the product
/// leaves the range of amounts.
pub open spec fn proportional_fee(amount: int, bps: int) -> int {
    if amount * bps > i128::MAX {
        0
    } else {
        amount * bps / (BPS_DENOMINATOR as int)
    }
}

/// The smaller of `fee` and the absolute ceiling, if one is set.
pub open spec fn capped_fee(slots: Slots, fee: int) -> int {
    match fee_ceiling(slots) {
        Some(ceiling) => if ceiling < fee {
            ceiling as int
        } else {
            fee
        },
        None => fee,
    }
}

/// What a route of `amount` through the pair is charged.
pub open spec fn route_fee(slots: Slots, source: Text, destination: Text, amount: int) -> int {
    capped_fee(slots, proportional_fee(amount, fee_bps(slots, source, destination) as int))
}

// ---- Refusals ----

/// Refused by a rule of the contract.
pub open spec fn refuse(error: RouterError) -> Refusal {
    Some(Rejection::Contract(error))
}

/// Refused unless `address` signed.
pub open spec fn signature_refusal(inv: InvocationView, address: Text) -> Refusal {
    if inv.signers.contains(address) {
        None
    } else {
        Some(Rejection::Unauthorized(address))
    }
}

/// Refused unless an admin is set and signed.
pub open spec fn admin_refusal(inv: InvocationView) -> Refusal {
    match admin(inv.slots) {
        None => refuse(RouterError::NotInitialized),
        Some(a) => signature_refusal(inv, a),
    }
}

/// Refused while the router is paused, and unless an admin is set and signed.
pub open spec fn live_admin_refusal(inv: InvocationView) -> Refusal {
    if paused(inv.slots) {
        refuse(RouterError::ContractPaused)
    } else {
        admin_refusal(inv)
    }
}

pub open spec fn migrate_refusal(inv: InvocationView) -> Refusal {
    if live_admin_refusal(inv) is Some {
        live_admin_refusal(inv)
    } else if schema_version(inv.slots) != 1 {
        refuse(RouterError::MigrationVersionMismatch)
    } else {
        None
    }
}

pub open spec fn accept_refusal(inv: InvocationView, caller: Text) -> Refusal {
    if paused(inv.slots) {
        refuse(RouterError::ContractPaused)
    } else if signature_refusal(inv, caller) is Some {
        signature_refusal(inv, caller)
    } else if pending_admin(inv.slots) is None {
        refuse(RouterError::NoPendingAdminTransfer)
    } else if pending_admin(inv.slots) != Some(caller) {
        refuse(RouterError::NotPendingAdmin)
    } else if inv.timestamp < pending_admin_eta(inv.slots).unwrap_or(0) {
        refuse(RouterError::TimelockNotElapsed)
    } else {
        None
    }
}

pub open spec fn register_refusal(inv: InvocationView, source: Text, destination: Text) -> Refusal {
    if live_admin_refusal(inv) is Some {
        live_admin_refusal(inv)
    } else if source == destination {
        refuse(RouterError::SourceEqualsDestination)
    } else {
        None
    }
}

/// A batch of `len` entries is refused before its entries are looked at.
pub open spec fn batch_refusal(inv: InvocationView, len: nat) -> Refusal {
    if live_admin_refusal(inv) is Some {
        live_admin_refusal(inv)
    } else if len == 0 {
        refuse(RouterError::EmptyBatch)
    } else if len > MAX_BATCH_SIZE {
        refuse(RouterError::BatchTooLarge)
    } else {
        None
    }
}

pub open spec fn register_batch_refusal(inv: InvocationView, pairs: Seq<(Text, Text)>) -> Refusal {
    if batch_refusal(inv, pairs.len()) is Some {
        batch_refusal(inv, pairs.len())
    } else if exists|i: int| 0 <= i < pairs.len() && (#[trigger] pairs[i]).0 == pairs[i].1 {
        refuse(RouterError::SourceEqualsDestination)
    } else {
        None
    }
}

/// What is wrong with setting the fee of a pair, if anything.
pub open spec fn fee_entry_error(
    slots: Slots,
    source: Text,
    destination: Text,
    bps: u32,
) -> Option<RouterError> {
    if bps > MAX_FEE_BPS {
        Some(RouterError::FeeBpsTooHigh)
    } else if !registered(slots, source, destination) {
        Some(RouterError::PairNotRegistered)
    } else {
        None
    }
}

/// What is wrong with the first faulty entry of a batch of fees, if any is.
pub open spec fn first_fee_error(
    slots: Slots,
    entries: Seq<(Text, Text, u32)>,
) -> Option<RouterError>
    decreases entries.len(),
{
    if entries.len() == 0 {
        None
    } else {
        match first_fee_error(slots, entries.drop_last()) {
            Some(error) => Some(error),
            None => fee_entry_error(slots, entries.last().0, entries.last().1, entries.last().2),
        }
    }
}

pub open spec fn set_fee_refusal(
    inv: InvocationView,
    source: Text,
    destination: Text,
    bps: u32,
) -> Refusal {
    if live_admin_refusal(inv) is Some {
        live_admin_refusal(inv)
    } else {
        match fee_entry_error(inv.slots, source, destination, bps) {
            Some(error) => refuse(error),
            None => None,
        }
    }
}

pub open spec fn set_fee_batch_refusal(
    inv: InvocationView,
    entries: Seq<(Text, Text, u32)>,
) -> Refusal {
    if batch_refusal(inv, entries.len()) is Some {
        batch_refusal(inv, entries.len())
    } else {
        match first_fee_error(inv.slots, entries) {
            Some(error) => refuse(error),
            None => None,
        }
    }
}

/// Refused where `valid` does not hold of the new value, or the pair is not registered.
pub open spec fn set_bound_refusal(
    inv: InvocationView,
    source: Text,
    destination: Text,
    valid: bool,
) -> Refusal {
    if live_admin_refusal(inv) is Some {
        live_admin_refusal(inv)
    } else if !valid {
        refuse(RouterError::AmountMustBePositive)
    } else if !registered(inv.slots, source, destination) {
        refuse(RouterError::PairNotRegistered)
    } else {
        None
    }
}

pub open spec fn set_liquidity_refusal(
    inv: InvocationView,
    caller: Text,
    source: Text,
    destination: Text,
    liquidity: i128,
) -> Refusal {
    if paused(inv.slots) {
        refuse(RouterError::ContractPaused)
    } else if signature_refusal(inv, caller) is Some {
        signature_refusal(inv, caller)
    } else if admin(inv.slots) is None {
        refuse(RouterError::NotInitialized)
    } else if admin(inv.slots) != Some(caller) && oracle(inv.slots) != Some(caller) {
        refuse(RouterError::NotAuthorized)
    } else if liquidity < 0 {
        refuse(RouterError::AmountMustBePositive)
    } else if !registered(inv.slots, source, destination) {
        refuse(RouterError::PairNotRegistered)
    } else {
        None
    }
}

pub open spec fn set_cooldown_refusal(inv: InvocationView, cooldown_secs: u64) -> Refusal {
    if live_admin_refusal(inv) is Some {
        live_admin_refusal(inv)
    } else if cooldown_secs > MAX_COOLDOWN_SECS {
        refuse(RouterError::CooldownTooLarge)
    } else {
        None
    }
}

pub open spec fn set_ceiling_refusal(inv: InvocationView, max_fee: i128) -> Refusal {
    if live_admin_refusal(inv) is Some {
        live_admin_refusal(inv)
    } else if max_fee < 0 {
        refuse(RouterError::AmountMustBePositive)
    } else {
        None
    }
}

/// The pair was routed at `last` and its cooldown has not elapsed since.
pub open spec fn cooling_down(inv: InvocationView, source: Text, destination: Text) -> bool {
    &&& cooldown(inv.slots, source, destination) > 0
    &&& last_route_at(inv.slots, source, destination) matches Some(last)
    &&& inv.timestamp < last + cooldown(inv.slots, source, destination)
}

pub open spec fn quote_refusal(
    slots: Slots,
    source: Text,
    destination: Text,
    amount: i128,
) -> Refusal {
    if amount <= 0 {
        refuse(RouterError::AmountMustBePositive)
    } else if !registered(slots, source, destination) {
        refuse(RouterError::PairNotRegistered)
    } else {
        None
    }
}

pub open spec fn route_refusal(
    inv: InvocationView,
    source: Text,
    destination: Text,
    amount: i128,
) -> Refusal {
    if paused(inv.slots) {
        refuse(RouterError::ContractPaused)
    } else if quote_refusal(inv.slots, source, destination, amount) is Some {
        quote_refusal(inv.slots, source, destination, amount)
    } else if amount < min_amount(inv.slots, source, destination) {
        refuse(RouterError::AmountBelowMin)
    } else if amount > max_amount(inv.slots, source, destination) {
        refuse(RouterError::AmountAboveMax)
    } else if amount > usable_liquidity(inv.slots, source, destination) {
        refuse(RouterError::InsufficientLiquidity)
    } else if cooling_down(inv, source, destination) {
        refuse(RouterError::RouteCooldownActive)
    } else if locked(inv.slots) {
        refuse(RouterError::ReentrantCall)
    } else {
        None
    }
}

/// The route lock is refused to whoever finds it taken.
pub open spec fn enter_refusal(inv: InvocationView) -> Refusal {
    if locked(inv.slots) {
        refuse(RouterError::ReentrantCall)
    } else {
        None
    }
}

// ---- Effects ----

/// `n`, or the largest 64-bit number if `n` is larger.
pub open spec fn clamp_u64(n: int) -> u64 {
    if n > u64::MAX {
        u64::MAX
    } else {
        n as u64
    }
}

/// `n`, or the largest amount if `n` is larger.
pub open spec fn clamp_i128(n: int) -> i128 {
    if n > i128::MAX {
        i128::MAX
    } else {
        n as i128
    }
}

pub open spec fn construct_effect(inv: InvocationView, new_admin: Text) -> InvocationView {
    inv.put(DataKey::Admin, Value::Address(new_admin)).emit(Event::Init(new_admin))
}

pub open spec fn migrate_effect(inv: InvocationView) -> InvocationView {
    inv.put(DataKey::SchemaVersion, Value::U32(2))
}

pub open spec fn pause_effect(inv: InvocationView, pausing: bool) -> InvocationView {
    inv.put(DataKey::Paused, Value::Bool(pausing)).emit(Event::Paused(pausing))
}

pub open spec fn set_timelock_effect(inv: InvocationView, delay_seconds: u64) -> InvocationView {
    inv.put(DataKey::Timelock, Value::U64(delay_seconds))
}

/// Ledger time from which a handover proposed now may be accepted.
pub open spec fn handover_eta(inv: InvocationView) -> u64 {
    clamp_u64(inv.timestamp + timelock(inv.slots))
}

pub open spec fn propose_effect(inv: InvocationView, new_admin: Text) -> InvocationView {
    inv.put(DataKey::PendingAdmin, Value::Address(new_admin)).put(
        DataKey::PendingAdminEta,
        Value::U64(handover_eta(inv)),
    ).emit(Event::Queued(new_admin, handover_eta(inv)))
}

pub open spec fn cancel_effect(inv: InvocationView) -> InvocationView {
    inv.clear(DataKey::PendingAdmin).clear(DataKey::PendingAdminEta)
}

pub open spec fn accept_effect(inv: InvocationView, caller: Text) -> InvocationView {
    cancel_effect(inv.put(DataKey::Admin, Value::Address(caller))).emit(Event::Executed(caller))
}

pub open spec fn set_fee_recipient_effect(inv: InvocationView, recipient: Text) -> InvocationView {
    inv.put(DataKey::FeeRecipient, Value::Address(recipient))
}

pub open spec fn set_ceiling_effect(inv: InvocationView, max_fee: i128) -> InvocationView {
    inv.put(DataKey::MaxFeeAbsolute, Value::I128(max_fee)).emit(Event::MaxFee(max_fee))
}

pub open spec fn set_oracle_effect(inv: InvocationView, new_oracle: Text) -> InvocationView {
    inv.put(DataKey::Oracle, Value::Address(new_oracle)).emit(Event::OracleSet(new_oracle))
}

pub open spec fn remove_oracle_effect(inv: InvocationView) -> InvocationView {
    inv.clear(DataKey::Oracle).emit(Event::OracleRemoved(oracle(inv.slots)))
}

pub open spec fn register_effect(
    inv: InvocationView,
    source: Text,
    destination: Text,
) -> InvocationView {
    inv.put(DataKey::Pair(source, destination), Value::Bool(true)).emit(
        Event::PairRegistered(source, destination),
    )
}

/// The pairs are registered one after another.
pub open spec fn register_batch_effect(
    inv: InvocationView,
    pairs: Seq<(Text, Text)>,
) -> InvocationView
    decreases pairs.len(),
{
    if pairs.len() == 0 {
        inv
    } else {
        register_effect(
            register_batch_effect(inv, pairs.drop_last()),
            pairs.last().0,
            pairs.last().1,
        )
    }
}

/// Fee, bounds and liquidity of the pair are cleared.
pub open spec fn clear_config_effect(
    inv: InvocationView,
    source: Text,
    destination: Text,
) -> InvocationView {
    inv.clear(DataKey::PairFeeBps(source, destination)).clear(
        DataKey::PairMinAmount(source, destination),
    ).clear(DataKey::PairMaxAmount(source, destination)).clear(
        DataKey::PairLiquidity(source, destination),
    )
}

pub open spec fn unregister_effect(
    inv: InvocationView,
    source: Text,
    destination: Text,
) -> InvocationView {
    clear_config_effect(inv.clear(DataKey::Pair(source, destination)), source, destination).emit(
        Event::PairUnregistered(source, destination),
    ).emit(Event::ConfigCleared(source, destination))
}

/// Route count, volume and last-route time of the pair are cleared.
pub open spec fn purge_effect(
    inv: InvocationView,
    source: Text,
    destination: Text,
) -> InvocationView {
    inv.clear(DataKey::PairRouteCount(source, destination)).clear(
        DataKey::PairVolume(source, destination),
    ).clear(DataKey::PairLastRouteAt(source, destination)).emit(
        Event::MetricsReset(source, destination),
    )
}

pub open spec fn set_fee_effect(
    inv: InvocationView,
    source: Text,
    destination: Text,
    bps: u32,
) -> InvocationView {
    inv.put(DataKey::PairFeeBps(source, destination), Value::U32(bps)).emit(
        Event::FeeSet(source, destination, bps),
    )
}

/// The fees are set one after another.
pub open spec fn set_fee_batch_effect(
    inv: InvocationView,
    entries: Seq<(Text, Text, u32)>,
) -> InvocationView
    decreases entries.len(),
{
    if entries.len() == 0 {
        inv
    } else {
        set_fee_effect(
            set_fee_batch_effect(inv, entries.drop_last()),
            entries.last().0,
            entries.last().1,
            entries.last().2,
        )
    }
}

pub open spec fn set_min_effect(
    inv: InvocationView,
    source: Text,
    destination: Text,
    amount: i128,
) -> InvocationView {
    inv.put(DataKey::PairMinAmount(source, destination), Value::I128(amount))
}

pub open spec fn set_max_effect(
    inv: InvocationView,
    source: Text,
    destination: Text,
    amount: i128,
) -> InvocationView {
    inv.put(DataKey::PairMaxAmount(source, destination), Value::I128(amount))
}

pub open spec fn set_liquidity_effect(
    inv: InvocationView,
    source: Text,
    destination: Text,
    liquidity: i128,
) -> InvocationView {
    inv.put(DataKey::PairLiquidity(source, destination), Value::I128(liquidity)).emit(
        Event::LiquiditySet(source, destination, liquidity),
    )
}

pub open spec fn set_cooldown_effect(
    inv: InvocationView,
    source: Text,
    destination: Text,
    cooldown_secs: u64,
) -> InvocationView {
    inv.put(DataKey::PairCooldown(source, destination), Value::U64(cooldown_secs)).emit(
        Event::CooldownSet(source, destination, cooldown_secs),
    )
}

/// `amount` is taken off the pair's liquidity, unless that is unbounded.
pub open spec fn debit_effect(
    inv: InvocationView,
    source: Text,
    destination: Text,
    amount: i128,
) -> InvocationView {
    let liquidity = usable_liquidity(inv.slots, source, destination);
    if liquidity == i128::MAX {
        inv
    } else {
        let remaining = (liquidity - amount) as i128;
        inv.put(DataKey::PairLiquidity(source, destination), Value::I128(remaining)).emit(
            Event::LiquidityUsed(source, destination, remaining),
        )
    }
}

/// The route lock is taken.
pub open spec fn enter_effect(inv: InvocationView) -> InvocationView {
    inv.put(DataKey::ReentrancyLock, Value::Bool(true))
}

/// The route lock is freed.
pub open spec fn exit_effect(inv: InvocationView) -> InvocationView {
    inv.put(DataKey::ReentrancyLock, Value::Bool(false))
}

/// A route of `amount` is recorded: liquidity is debited, the counters, the
/// volume and the last-route time move on, and the lock is free afterwards.
pub open spec fn route_effect(
    inv: InvocationView,
    source: Text,
    destination: Text,
    amount: i128,
) -> InvocationView {
    debit_effect(inv, source, destination, amount).put(
        DataKey::TotalRoutesAllTime,
        Value::U64(clamp_u64(total_routes(inv.slots) + 1)),
    ).put(
        DataKey::PairRouteCount(source, destination),
        Value::U64(clamp_u64(route_count(inv.slots, source, destination) + 1)),
    ).put(
        DataKey::PairVolume(source, destination),
        Value::I128(clamp_i128(volume(inv.slots, source, destination) + amount)),
    ).put(DataKey::PairLastRouteAt(source, destination), Value::U64(inv.timestamp)).emit(
        Event::Route(source, destination, amount),
    ).put(DataKey::ReentrancyLock, Value::Bool(false))
}

pub open spec fn upgrade_effect(inv: InvocationView, new_wasm_hash: [u8; 32]) -> InvocationView {
    inv.emit(Event::Upgraded(new_wasm_hash))
}

// ---- Answers ----

/// A request made in `pre` was answered with `result` and left `post`: refused,
/// with nothing changed, or accepted with exactly the effect.
pub open spec fn answered<T>(
    pre: InvocationView,
    post: InvocationView,
    result: Result<T, Rejection<Address>>,
    refusal: Refusal,
    effect: InvocationView,
) -> bool {
    match refusal {
        Some(why) => (result matches Err(e) && e@ == why) && post == pre,
        None => result is Ok && post == effect,
    }
}

/// The texts of a batch of pairs.
pub open spec fn pair_texts(pairs: Seq<(Symbol, Symbol)>) -> Seq<(Text, Text)> {
    pairs.map_values(|p: (Symbol, Symbol)| (p.0@, p.1@))
}

/// The texts of a batch of fees.
pub open spec fn fee_texts(entries: Seq<(Symbol, Symbol, u32)>) -> Seq<(Text, Text, u32)> {
    entries.map_values(|e: (Symbol, Symbol, u32)| (e.0@, e.1@, e.2))
}

} // verus!
