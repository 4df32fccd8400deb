//! Quoting and recording routes.

use vstd::prelude::*;
use crate::config::BPS_DENOMINATOR;
use crate::error::Rejection;
use crate::error::RouterError;
use crate::event::Event;
use crate::ident::Address;
use crate::ident::Symbol;
use crate::invocation::Invocation;
use crate::request::effect;
use crate::request::refusal;
use crate::request::Request;
use crate::router::StableRouteRouter;
use crate::router::refused;
use crate::rules::answered;
use crate::rules::capped_fee;
use crate::rules::clamp_i128;
use crate::rules::cooldown;
use crate::rules::cooling_down;
use crate::rules::enter_effect;
use crate::rules::enter_refusal;
use crate::rules::exit_effect;
use crate::rules::fee_bps;
use crate::rules::max_amount;
use crate::rules::min_amount;
use crate::rules::proportional_fee;
use crate::rules::quote_refusal;
use crate::rules::route_effect;
use crate::rules::route_fee;
use crate::rules::volume;
use crate::storage::DataKey;
use crate::storage::Value;

verus! {

/// Sum of two amounts, or the largest amount if the sum is larger.
fn saturating_sum(a: i128, b: i128) -> (sum: i128)
    requires
        a >= 0,
        b >= 0,
    ensures
        sum == clamp_i128(a + b),
{
    if a > i128::MAX - b {
        i128::MAX
    } else {
        a + b
    }
}

/// `amount` at `bps` basis points, rounded down; zero where the product
/// leaves the range of amounts.
fn fee_at(amount: i128, bps: u32) -> (fee: i128)
    requires
        amount > 0,
    ensures
        fee == proportional_fee(amount as int, bps as int),
        fee >= 0,
{
    assert(amount * bps >= 0) by (nonlinear_arith)
        requires
            amount > 0,
            bps >= 0,
    ;
    match amount.checked_mul(bps as i128) {
        Some(product) => product / BPS_DENOMINATOR,
        None => 0,
    }
}

impl StableRouteRouter {
    /// Take the route lock, which must be free.
    fn enter_nonreentrant(inv: &mut Invocation) -> (result: Result<(), Rejection<Address>>)
        requires
            old(inv).wf(),
        ensures
            final(inv).wf(),
            answered(
                old(inv)@,
                final(inv)@,
                result,
                enter_refusal(old(inv)@),
                enter_effect(old(inv)@),
            ),
    {
        if inv.storage.get_bool(&DataKey::ReentrancyLock).unwrap_or(false) {
            return refused(RouterError::ReentrantCall);
        }
        inv.put(DataKey::ReentrancyLock, Value::Bool(true));
        Ok(())
    }

    /// Free the route lock.
    fn exit_nonreentrant(inv: &mut Invocation)
        requires
            old(inv).wf(),
        ensures
            final(inv).wf(),
            final(inv)@ == exit_effect(old(inv)@),
    {
        inv.put(DataKey::ReentrancyLock, Value::Bool(false));
    }

    /// `fee`, or the absolute ceiling if one is set and smaller.
    fn apply_fee_cap(inv: &Invocation, fee: i128) -> (capped: i128)
        requires
            inv.wf(),
        ensures
            capped == capped_fee(inv@.slots, fee as int),
    {
        match inv.storage.get_i128(&DataKey::MaxFeeAbsolute) {
            Some(cap) => if cap < fee {
                cap
            } else {
                fee
            },
            None => fee,
        }
    }

    /// Fee and net amount of a route, without recording it. Available while
    /// the router is paused.
    pub fn quote_route(
        inv: &Invocation,
        source: Symbol,
        destination: Symbol,
        amount: i128,
    ) -> (result: Result<(i128, i128), Rejection<Address>>)
        requires
            inv.wf(),
        ensures
            match quote_refusal(inv@.slots, source@, destination@, amount) {
                Some(why) => result matches Err(e) && e@ == why,
                None => result matches Ok((fee, net)) && fee == route_fee(
                    inv@.slots,
                    source@,
                    destination@,
                    amount as int,
                ) && fee + net == amount,
            },
    {
        if amount <= 0 {
            return refused(RouterError::AmountMustBePositive);
        }
        if let Err(e) = Self::require_pair_registered(inv, &source, &destination) {
            return Err(e);
        }
        let fee_bps: u32 = inv.storage.get_u32(
            &DataKey::PairFeeBps(source, destination),
        ).unwrap_or(0);
        let fee: i128 = Self::apply_fee_cap(inv, fee_at(amount, fee_bps));
        proof {
            inv.storage.lemma_sound();
        }
        Ok((fee, amount - fee))
    }

    /// Whether the cooldown of the pair since its last route has not elapsed.
    fn is_cooling_down(inv: &Invocation, source: &Symbol, destination: &Symbol) -> (result: bool)
        requires
            inv.wf(),
        ensures
            result == cooling_down(inv@, source@, destination@),
    {
        let cooldown: u64 = inv.storage.get_u64(
            &DataKey::PairCooldown(source.clone(), destination.clone()),
        ).unwrap_or(0);
        if cooldown == 0 {
            return false;
        }
        match inv.storage.get_u64(&DataKey::PairLastRouteAt(source.clone(), destination.clone())) {
            Some(last) => match last.checked_add(cooldown) {
                Some(end) => inv.timestamp < end,
                None => true,
            },
            None => false,
        }
    }

    /// Record a route of `amount` through the pair and return its fee, in
    /// source units, rounded down.
    ///
    /// The checks come first, in the order of [`route_refusal`]; a refused
    /// route changes nothing. The reported liquidity is debited by `amount`;
    /// where none was reported it is unbounded and stays so.
    pub fn compute_route_fee(
        inv: &mut Invocation,
        source: Symbol,
        destination: Symbol,
        amount: i128,
    ) -> (result: Result<i128, Rejection<Address>>)
        requires
            old(inv).wf(),
        ensures
            final(inv).wf(),
            answered(
                old(inv)@,
                final(inv)@,
                result,
                refusal(old(inv)@, Request::ComputeRouteFee(source@, destination@, amount)),
                effect(old(inv)@, Request::ComputeRouteFee(source@, destination@, amount)),
            ),
            result matches Ok(fee) ==> fee == route_fee(
                old(inv)@.slots,
                source@,
                destination@,
                amount as int,
            ),
    {
        let ghost pre = inv@;
        if Self::is_paused(inv) {
            return refused(RouterError::ContractPaused);
        }
        if amount <= 0 {
            return refused(RouterError::AmountMustBePositive);
        }
        if !Self::is_pair_registered(inv, source.clone(), destination.clone()) {
            return refused(RouterError::PairNotRegistered);
        }
        let min_amount: i128 = inv.storage.get_i128(
            &DataKey::PairMinAmount(source.clone(), destination.clone()),
        ).unwrap_or(0);
        if amount < min_amount {
            return refused(RouterError::AmountBelowMin);
        }
        let max_amount: i128 = inv.storage.get_i128(
            &DataKey::PairMaxAmount(source.clone(), destination.clone()),
        ).unwrap_or(i128::MAX);
        if amount > max_amount {
            return refused(RouterError::AmountAboveMax);
        }
        let liquidity: i128 = inv.storage.get_i128(
            &DataKey::PairLiquidity(source.clone(), destination.clone()),
        ).unwrap_or(i128::MAX);
        if amount > liquidity {
            return refused(RouterError::InsufficientLiquidity);
        }
        if Self::is_cooling_down(inv, &source, &destination) {
            return refused(RouterError::RouteCooldownActive);
        }
        if let Err(e) = Self::enter_nonreentrant(inv) {
            return Err(e);
        }
        if liquidity != i128::MAX {
            let remaining: i128 = liquidity - amount;
            inv.put(
                DataKey::PairLiquidity(source.clone(), destination.clone()),
                Value::I128(remaining),
            );
            inv.emit(Event::LiquidityUsed(source.clone(), destination.clone(), remaining));
        }
        let total: u64 = inv.storage.get_u64(&DataKey::TotalRoutesAllTime).unwrap_or(0);
        inv.put(DataKey::TotalRoutesAllTime, Value::U64(total.saturating_add(1)));
        let count: u64 = inv.storage.get_u64(
            &DataKey::PairRouteCount(source.clone(), destination.clone()),
        ).unwrap_or(0);
        inv.put(
            DataKey::PairRouteCount(source.clone(), destination.clone()),
            Value::U64(count.saturating_add(1)),
        );
        let volume: i128 = inv.storage.get_i128(
            &DataKey::PairVolume(source.clone(), destination.clone()),
        ).unwrap_or(0);
        proof {
            inv.storage.lemma_sound();
        }
        inv.put(
            DataKey::PairVolume(source.clone(), destination.clone()),
            Value::I128(saturating_sum(volume, amount)),
        );
        inv.put(
            DataKey::PairLastRouteAt(source.clone(), destination.clone()),
            Value::U64(inv.timestamp),
        );
        inv.emit(Event::Route(source.clone(), destination.clone(), amount));
        let fee_bps: u32 = inv.storage.get_u32(
            &DataKey::PairFeeBps(source.clone(), destination.clone()),
        ).unwrap_or(0);
        let fee: i128 = Self::apply_fee_cap(inv, fee_at(amount, fee_bps));
        Self::exit_nonreentrant(inv);
        proof {
            let effect = route_effect(pre, source@, destination@, amount);
            assert(inv@.slots =~= effect.slots);
            assert(inv@.events =~= effect.events);
        }
        Ok(fee)
    }
}

} // verus!
