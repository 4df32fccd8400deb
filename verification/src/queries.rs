//! Reading the state of the contract.

use vstd::prelude::*;
use crate::ident::Address;
use crate::ident::Symbol;
use crate::invocation::Invocation;
use crate::router::StableRouteRouter;
use crate::rules::admin;
use crate::rules::cooldown;
use crate::rules::fee_bps;
use crate::rules::fee_ceiling;
use crate::rules::last_route_at;
use crate::rules::max_amount;
use crate::rules::min_amount;
use crate::rules::oracle;
use crate::rules::pending_admin;
use crate::rules::pending_admin_eta;
use crate::rules::registered;
use crate::rules::reported_liquidity;
use crate::rules::route_count;
use crate::rules::schema_version;
use crate::rules::timelock;
use crate::rules::total_routes;
use crate::rules::volume;
use crate::storage::DataKey;
use crate::storage::address_at;
use crate::storage::optional_address;

verus! {

/// What a dashboard shows of a pair.
#[derive(Clone, Copy, Debug, PartialEq, Eq, Structural)]
pub struct PairInfo {
    pub registered: bool,
    pub fee_bps: u32,
    pub min_amount: i128,
    pub max_amount: i128,
    pub liquidity: i128,
    pub last_route_at: u64,
}

impl StableRouteRouter {
    /// Version of the storage layout.
    pub fn get_schema_version(inv: &Invocation) -> (result: u32)
        requires
            inv.wf(),
        ensures
            result == schema_version(inv@.slots),
    {
        inv.storage.get_u32(&DataKey::SchemaVersion).unwrap_or(1)
    }

    /// Governance delay of a handover, in seconds.
    pub fn get_timelock(inv: &Invocation) -> (result: u64)
        requires
            inv.wf(),
        ensures
            result == timelock(inv@.slots),
    {
        inv.storage.get_u64(&DataKey::Timelock).unwrap_or(0)
    }

    /// Earliest ledger time at which the pending handover may be accepted.
    pub fn get_pending_admin_eta(inv: &Invocation) -> (result: Option<u64>)
        requires
            inv.wf(),
        ensures
            result == pending_admin_eta(inv@.slots),
    {
        inv.storage.get_u64(&DataKey::PendingAdminEta)
    }

    /// The proposed admin, if a handover is pending.
    pub fn get_pending_admin(inv: &Invocation) -> (result: Option<Address>)
        requires
            inv.wf(),
        ensures
            optional_address(result) == pending_admin(inv@.slots),
    {
        inv.storage.get_address(&DataKey::PendingAdmin)
    }

    /// The admin, if one is set.
    pub fn get_admin(inv: &Invocation) -> (result: Option<Address>)
        requires
            inv.wf(),
        ensures
            optional_address(result) == admin(inv@.slots),
    {
        inv.storage.get_address(&DataKey::Admin)
    }

    /// Who receives protocol fees, if set.
    pub fn get_fee_recipient(inv: &Invocation) -> (result: Option<Address>)
        requires
            inv.wf(),
        ensures
            optional_address(result) == address_at(inv@.slots, DataKey::FeeRecipient),
    {
        inv.storage.get_address(&DataKey::FeeRecipient)
    }

    /// The liquidity oracle, if one is set.
    pub fn get_oracle(inv: &Invocation) -> (result: Option<Address>)
        requires
            inv.wf(),
        ensures
            optional_address(result) == oracle(inv@.slots),
    {
        inv.storage.get_address(&DataKey::Oracle)
    }

    /// The absolute fee ceiling, if one is set.
    pub fn get_max_fee_absolute(inv: &Invocation) -> (result: Option<i128>)
        requires
            inv.wf(),
        ensures
            result == fee_ceiling(inv@.slots),
    {
        inv.storage.get_i128(&DataKey::MaxFeeAbsolute)
    }

    /// How many routes were ever recorded, over all pairs.
    pub fn get_total_routes_all_time(inv: &Invocation) -> (result: u64)
        requires
            inv.wf(),
        ensures
            result == total_routes(inv@.slots),
    {
        inv.storage.get_u64(&DataKey::TotalRoutesAllTime).unwrap_or(0)
    }

    /// Fee of the pair, in basis points; zero where none was set.
    pub fn get_pair_fee_bps(inv: &Invocation, source: Symbol, destination: Symbol) -> (result: u32)
        requires
            inv.wf(),
        ensures
            result == fee_bps(inv@.slots, source@, destination@),
    {
        inv.storage.get_u32(&DataKey::PairFeeBps(source, destination)).unwrap_or(0)
    }

    /// Smallest routable amount; zero where none was set.
    pub fn get_pair_min_amount(
        inv: &Invocation,
        source: Symbol,
        destination: Symbol,
    ) -> (result: i128)
        requires
            inv.wf(),
        ensures
            result == min_amount(inv@.slots, source@, destination@),
    {
        inv.storage.get_i128(&DataKey::PairMinAmount(source, destination)).unwrap_or(0)
    }

    /// Largest routable amount; unbounded where none was set.
    pub fn get_pair_max_amount(
        inv: &Invocation,
        source: Symbol,
        destination: Symbol,
    ) -> (result: i128)
        requires
            inv.wf(),
        ensures
            result == max_amount(inv@.slots, source@, destination@),
    {
        inv.storage.get_i128(&DataKey::PairMaxAmount(source, destination)).unwrap_or(i128::MAX)
    }

    /// Reported liquidity; zero where none was reported.
    pub fn get_pair_liquidity(
        inv: &Invocation,
        source: Symbol,
        destination: Symbol,
    ) -> (result: i128)
        requires
            inv.wf(),
        ensures
            result == reported_liquidity(inv@.slots, source@, destination@),
    {
        inv.storage.get_i128(&DataKey::PairLiquidity(source, destination)).unwrap_or(0)
    }

    /// Ledger time of the pair's last route, if it was ever routed.
    pub fn get_pair_last_route_at(
        inv: &Invocation,
        source: Symbol,
        destination: Symbol,
    ) -> (result: Option<u64>)
        requires
            inv.wf(),
        ensures
            result == last_route_at(inv@.slots, source@, destination@),
    {
        inv.storage.get_u64(&DataKey::PairLastRouteAt(source, destination))
    }

    /// Shortest gap between two routes of the pair, in seconds.
    pub fn get_pair_cooldown(
        inv: &Invocation,
        source: Symbol,
        destination: Symbol,
    ) -> (result: u64)
        requires
            inv.wf(),
        ensures
            result == cooldown(inv@.slots, source@, destination@),
    {
        inv.storage.get_u64(&DataKey::PairCooldown(source, destination)).unwrap_or(0)
    }

    /// How many routes of the pair were ever recorded.
    pub fn get_pair_route_count(
        inv: &Invocation,
        source: Symbol,
        destination: Symbol,
    ) -> (result: u64)
        requires
            inv.wf(),
        ensures
            result == route_count(inv@.slots, source@, destination@),
    {
        inv.storage.get_u64(&DataKey::PairRouteCount(source, destination)).unwrap_or(0)
    }

    /// Sum of all amounts routed through the pair.
    pub fn get_pair_volume(inv: &Invocation, source: Symbol, destination: Symbol) -> (result: i128)
        requires
            inv.wf(),
        ensures
            result == volume(inv@.slots, source@, destination@),
    {
        inv.storage.get_i128(&DataKey::PairVolume(source, destination)).unwrap_or(0)
    }

    /// Whether the pair is registered and has reported liquidity.
    pub fn is_pair_active(inv: &Invocation, source: Symbol, destination: Symbol) -> (result: bool)
        requires
            inv.wf(),
        ensures
            result == (registered(inv@.slots, source@, destination@) && reported_liquidity(
                inv@.slots,
                source@,
                destination@,
            ) > 0),
    {
        if !Self::is_pair_registered(inv, source.clone(), destination.clone()) {
            return false;
        }
        Self::get_pair_liquidity(inv, source, destination) > 0
    }

    /// All slots of a pair that a dashboard shows, in one read.
    pub fn get_pair_info(inv: &Invocation, source: Symbol, destination: Symbol) -> (result: PairInfo)
        requires
            inv.wf(),
        ensures
            result == (PairInfo {
                registered: registered(inv@.slots, source@, destination@),
                fee_bps: fee_bps(inv@.slots, source@, destination@),
                min_amount: min_amount(inv@.slots, source@, destination@),
                max_amount: max_amount(inv@.slots, source@, destination@),
                liquidity: reported_liquidity(inv@.slots, source@, destination@),
                last_route_at: last_route_at(inv@.slots, source@, destination@).unwrap_or(0),
            }),
    {
        PairInfo {
            registered: Self::is_pair_registered(inv, source.clone(), destination.clone()),
            fee_bps: Self::get_pair_fee_bps(inv, source.clone(), destination.clone()),
            min_amount: Self::get_pair_min_amount(inv, source.clone(), destination.clone()),
            max_amount: Self::get_pair_max_amount(inv, source.clone(), destination.clone()),
            liquidity: Self::get_pair_liquidity(inv, source.clone(), destination.clone()),
            last_route_at: Self::get_pair_last_route_at(inv, source, destination).unwrap_or(0),
        }
    }
}

} // verus!
