//! What an invocation publishes.

use vstd::prelude::*;
use crate::ident::Address;
use crate::ident::Symbol;
use crate::storage::optional_address;

verus! {

/// A published event: one topic and a payload. `S` is the type of asset
/// symbols, `A` that of addresses.
#[derive(Debug, PartialEq, Eq)]
pub enum Event<S, A> {
    /// The contract was deployed with this admin.
    Init(A),
    /// The router was paused or resumed.
    Paused(bool),
    /// A handover to this admin was proposed; it may be accepted from this ledger time on.
    Queued(A, u64),
    /// This address became the admin.
    Executed(A),
    /// A pair was registered.
    PairRegistered(S, S),
    /// A pair was unregistered.
    PairUnregistered(S, S),
    /// The configuration of a pair was cleared.
    ConfigCleared(S, S),
    /// The fee of a pair was set, in basis points.
    FeeSet(S, S, u32),
    /// The liquidity of a pair was reported.
    LiquiditySet(S, S, i128),
    /// A route used liquidity of a pair; this much remains.
    LiquidityUsed(S, S, i128),
    /// An amount was routed through a pair.
    Route(S, S, i128),
    /// The cooldown of a pair was set, in seconds.
    CooldownSet(S, S, u64),
    /// The metrics of a pair were reset.
    MetricsReset(S, S),
    /// The absolute fee ceiling was set.
    MaxFee(i128),
    /// The liquidity oracle was set.
    OracleSet(A),
    /// The liquidity oracle, if there was one, was removed.
    OracleRemoved(Option<A>),
    /// The contract code with this hash is to be installed.
    Upgraded([u8; 32]),
}

impl View for Event<Symbol, Address> {
    type V = Event<Seq<char>, Seq<char>>;

    open spec fn view(&self) -> Event<Seq<char>, Seq<char>> {
        match *self {
            Event::Init(a) => Event::Init(a@),
            Event::Paused(a) => Event::Paused(a),
            Event::Queued(a, b) => Event::Queued(a@, b),
            Event::Executed(a) => Event::Executed(a@),
            Event::PairRegistered(a, b) => Event::PairRegistered(a@, b@),
            Event::PairUnregistered(a, b) => Event::PairUnregistered(a@, b@),
            Event::ConfigCleared(a, b) => Event::ConfigCleared(a@, b@),
            Event::FeeSet(a, b, c) => Event::FeeSet(a@, b@, c),
            Event::LiquiditySet(a, b, c) => Event::LiquiditySet(a@, b@, c),
            Event::LiquidityUsed(a, b, c) => Event::LiquidityUsed(a@, b@, c),
            Event::Route(a, b, c) => Event::Route(a@, b@, c),
            Event::CooldownSet(a, b, c) => Event::CooldownSet(a@, b@, c),
            Event::MetricsReset(a, b) => Event::MetricsReset(a@, b@),
            Event::MaxFee(a) => Event::MaxFee(a),
            Event::OracleSet(a) => Event::OracleSet(a@),
            Event::OracleRemoved(a) => Event::OracleRemoved(optional_address(a)),
            Event::Upgraded(a) => Event::Upgraded(a),
        }
    }
}

/// The topic under which `event` is published.
pub open spec fn event_topic<S, A>(event: Event<S, A>) -> Seq<char> {
    match event {
        Event::Init(..) => "init"@,
        Event::Paused(..) => "paused"@,
        Event::Queued(..) => "queued"@,
        Event::Executed(..) => "executed"@,
        Event::PairRegistered(..) => "pair_reg"@,
        Event::PairUnregistered(..) => "unreg"@,
        Event::ConfigCleared(..) => "cfg_clr"@,
        Event::FeeSet(..) => "fee_set"@,
        Event::LiquiditySet(..) => "liq_set"@,
        Event::LiquidityUsed(..) => "liq_used"@,
        Event::Route(..) => "route"@,
        Event::CooldownSet(..) => "cd_set"@,
        Event::MetricsReset(..) => "pair_mrst"@,
        Event::MaxFee(..) => "maxfee"@,
        Event::OracleSet(..) => "orac_set"@,
        Event::OracleRemoved(..) => "orac_rm"@,
        Event::Upgraded(..) => "upgraded"@,
    }
}

impl Event<Symbol, Address> {
    /// The topic under which the event is published.
    pub fn topic(&self) -> (topic: &'static str)
        ensures
            topic@ == event_topic(*self),
    {
        match self {
            Event::Init(..) => "init",
            Event::Paused(..) => "paused",
            Event::Queued(..) => "queued",
            Event::Executed(..) => "executed",
            Event::PairRegistered(..) => "pair_reg",
            Event::PairUnregistered(..) => "unreg",
            Event::ConfigCleared(..) => "cfg_clr",
            Event::FeeSet(..) => "fee_set",
            Event::LiquiditySet(..) => "liq_set",
            Event::LiquidityUsed(..) => "liq_used",
            Event::Route(..) => "route",
            Event::CooldownSet(..) => "cd_set",
            Event::MetricsReset(..) => "pair_mrst",
            Event::MaxFee(..) => "maxfee",
            Event::OracleSet(..) => "orac_set",
            Event::OracleRemoved(..) => "orac_rm",
            Event::Upgraded(..) => "upgraded",
        }
    }
}

} // verus!
