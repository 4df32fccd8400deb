//! Fees, liquidity and cooldown of a route.

use vstd::prelude::*;
use crate::config::BPS_DENOMINATOR;
use crate::error::RouterError;
use crate::invocation::InvocationView;
use crate::laws::batch::agree;
use crate::laws::governance::resumed;
use crate::request::accepted;
use crate::request::effect;
use crate::request::refusal;
use crate::request::Request;
use crate::rules::clamp_i128;
use crate::rules::clamp_u64;
use crate::rules::cooldown;
use crate::rules::enter_effect;
use crate::rules::enter_refusal;
use crate::rules::exit_effect;
use crate::rules::fee_bps;
use crate::rules::fee_ceiling;
use crate::rules::first_fee_error;
use crate::rules::last_route_at;
use crate::rules::locked;
use crate::rules::max_amount;
use crate::rules::min_amount;
use crate::rules::proportional_fee;
use crate::rules::quote_refusal;
use crate::rules::refuse;
use crate::rules::route_count;
use crate::rules::route_fee;
use crate::rules::total_routes;
use crate::rules::usable_liquidity;
use crate::rules::volume;
use crate::rules::Text;
use crate::storage::admits;
use crate::storage::sound;
use crate::storage::DataKey;
use crate::storage::Slots;

verus! {

/// A fee is never negative, never more than a tenth of the amount, and so
/// never more than the amount.
pub proof fn law_fee_is_bounded(slots: Slots, s: Text, d: Text, amount: i128)
    requires
        sound(slots),
        amount > 0,
    ensures
        0 <= route_fee(slots, s, d, amount as int),
        10 * route_fee(slots, s, d, amount as int) <= amount,
        route_fee(slots, s, d, amount as int) <= amount,
{
    let bps = fee_bps(slots, s, d) as int;
    if slots.contains_key(DataKey::PairFeeBps(s, d)) {
        assert(admits(DataKey::PairFeeBps(s, d), slots[DataKey::PairFeeBps(s, d)]));
    }
    if slots.contains_key(DataKey::MaxFeeAbsolute) {
        assert(admits(DataKey::<Text>::MaxFeeAbsolute, slots[DataKey::MaxFeeAbsolute]));
    }
    assert(0 <= amount * bps <= 1_000 * amount) by (nonlinear_arith)
        requires
            amount > 0,
            0 <= bps <= 1_000,
    ;
}

/// A pair without a fee is free.
pub proof fn law_no_fee_is_free(slots: Slots, s: Text, d: Text, amount: i128)
    requires
        sound(slots),
        amount > 0,
        fee_bps(slots, s, d) == 0,
    ensures
        route_fee(slots, s, d, amount as int) == 0,
{
    law_fee_is_bounded(slots, s, d, amount);
    assert(amount * 0 == 0) by (nonlinear_arith);
}

/// No fee exceeds the absolute ceiling, and below the ceiling a fee is what
/// the basis points say.
pub proof fn law_ceiling_caps_the_fee(slots: Slots, s: Text, d: Text, amount: i128, ceiling: i128)
    requires
        fee_ceiling(slots) == Some(ceiling),
    ensures
        route_fee(slots, s, d, amount as int) <= ceiling,
        proportional_fee(amount as int, fee_bps(slots, s, d) as int) <= ceiling ==> route_fee(
            slots,
            s,
            d,
            amount as int,
        ) == proportional_fee(amount as int, fee_bps(slots, s, d) as int),
{
}

/// A route is charged the smaller of its proportional fee and the ceiling: the
/// proportional fee where no ceiling is set or the ceiling is not below it, and
/// exactly the ceiling where it is. The proportional fee is the amount at the
/// basis points of the pair, in whole units; it is nothing where the product is
/// too large to be an amount.
pub proof fn law_fee_is_the_smaller(
    slots: Slots,
    s: Text,
    d: Text,
    amount: i128,
    proportional: int,
)
    requires
        amount > 0,
        amount * fee_bps(slots, s, d) <= i128::MAX ==> proportional * BPS_DENOMINATOR <= amount
            * fee_bps(slots, s, d) < (proportional + 1) * BPS_DENOMINATOR,
        amount * fee_bps(slots, s, d) > i128::MAX ==> proportional == 0,
    ensures
        fee_ceiling(slots) is None ==> route_fee(slots, s, d, amount as int) == proportional,
        fee_ceiling(slots) matches Some(ceiling) ==> {
            &&& proportional <= ceiling ==> route_fee(slots, s, d, amount as int) == proportional
            &&& proportional > ceiling ==> route_fee(slots, s, d, amount as int) == ceiling
        },
{
}

/// A quote depends on the registration and the fee of the directed pair that it
/// names and on the ceiling, and on nothing else.
pub proof fn law_quote_is_local(a: Slots, b: Slots, s: Text, d: Text, amount: i128)
    requires
        agree(a, b, DataKey::Pair(s, d)),
        agree(a, b, DataKey::PairFeeBps(s, d)),
        agree(a, b, DataKey::MaxFeeAbsolute),
    ensures
        quote_refusal(a, s, d, amount) == quote_refusal(b, s, d, amount),
        route_fee(a, s, d, amount as int) == route_fee(b, s, d, amount as int),
{
}

/// Where the product of amount and basis points is an amount, the fee is that
/// product in whole units: less than one unit is lost to rounding.
pub proof fn law_fee_rounds_down(amount: i128, bps: u32)
    requires
        amount > 0,
        amount * bps <= i128::MAX,
    ensures
        proportional_fee(amount as int, bps as int) * BPS_DENOMINATOR <= amount * bps,
        amount * bps < (proportional_fee(amount as int, bps as int) + 1) * BPS_DENOMINATOR,
{
}

/// A route that is accepted is also quoted, and for the same pair and amount
/// the recorded route is charged the quoted fee; a quote depends on nothing
/// that recording the route changes.
pub proof fn law_quote_matches_route(inv: InvocationView, s: Text, d: Text, amount: i128)
    requires
        accepted(inv, Request::ComputeRouteFee(s, d, amount)),
    ensures
        quote_refusal(inv.slots, s, d, amount) is None,
        ({
            let post = effect(inv, Request::ComputeRouteFee(s, d, amount));
            &&& quote_refusal(post.slots, s, d, amount) is None
            &&& route_fee(post.slots, s, d, amount as int) == route_fee(
                inv.slots,
                s,
                d,
                amount as int,
            )
        }),
{
}

/// An accepted route lies within the bounds of its pair and its liquidity.
pub proof fn law_route_is_within_bounds(inv: InvocationView, s: Text, d: Text, amount: i128)
    requires
        accepted(inv, Request::ComputeRouteFee(s, d, amount)),
    ensures
        0 < amount,
        min_amount(inv.slots, s, d) <= amount <= max_amount(inv.slots, s, d),
        amount <= usable_liquidity(inv.slots, s, d),
{
}

/// Reported liquidity is debited by exactly the routed amount and never falls
/// below zero; where none was reported it stays unbounded.
pub proof fn law_route_debits_liquidity(inv: InvocationView, s: Text, d: Text, amount: i128)
    requires
        accepted(inv, Request::ComputeRouteFee(s, d, amount)),
    ensures
        ({
            let before = usable_liquidity(inv.slots, s, d);
            let after = usable_liquidity(
                effect(inv, Request::ComputeRouteFee(s, d, amount)).slots,
                s,
                d,
            );
            if before == i128::MAX {
                after == i128::MAX
            } else {
                after == before - amount && after >= 0
            }
        }),
{
}

/// A report of liquidity replaces what was left.
pub proof fn law_report_replaces_liquidity(
    inv: InvocationView,
    caller: Text,
    s: Text,
    d: Text,
    liquidity: i128,
)
    ensures
        usable_liquidity(
            effect(inv, Request::SetPairLiquidity(caller, s, d, liquidity)).slots,
            s,
            d,
        ) == liquidity,
{
}

/// A recorded route counts once, for the contract and for its pair, adds its
/// amount to the volume and stamps its time. The counters stop at the largest
/// number they can hold.
pub proof fn law_route_is_counted(inv: InvocationView, s: Text, d: Text, amount: i128)
    ensures
        ({
            let post = effect(inv, Request::ComputeRouteFee(s, d, amount));
            &&& total_routes(post.slots) == clamp_u64(total_routes(inv.slots) + 1)
            &&& route_count(post.slots, s, d) == clamp_u64(route_count(inv.slots, s, d) + 1)
            &&& volume(post.slots, s, d) == clamp_i128(volume(inv.slots, s, d) + amount)
            &&& last_route_at(post.slots, s, d) == Some(inv.timestamp)
        }),
{
}

/// Two routes of a pair are at least its cooldown apart: a second one before
/// that is not accepted, and from then on the cooldown does not stand in its
/// way.
pub proof fn law_cooldown_spaces_routes(
    inv: InvocationView,
    s: Text,
    d: Text,
    amount: i128,
    timestamp: u64,
    signers: Seq<Text>,
    next: i128,
)
    requires
        accepted(inv, Request::ComputeRouteFee(s, d, amount)),
    ensures
        ({
            let then = resumed(
                effect(inv, Request::ComputeRouteFee(s, d, amount)),
                timestamp,
                signers,
            );
            let again = Request::ComputeRouteFee(s, d, next);
            &&& timestamp < inv.timestamp + cooldown(inv.slots, s, d) && cooldown(inv.slots, s, d)
                > 0 ==> !accepted(then, again)
            &&& timestamp >= inv.timestamp + cooldown(inv.slots, s, d) ==> refusal(then, again)
                != refuse(RouterError::RouteCooldownActive)
        }),
{
}

/// The first route of a pair is never held up by a cooldown, and neither is
/// any route of a pair whose cooldown is zero.
pub proof fn law_cooldown_spares(inv: InvocationView, s: Text, d: Text, amount: i128)
    requires
        last_route_at(inv.slots, s, d) is None || cooldown(inv.slots, s, d) == 0,
    ensures
        refusal(inv, Request::ComputeRouteFee(s, d, amount)) != refuse(
            RouterError::RouteCooldownActive,
        ),
{
}

/// The route lock admits one at a time: taking it is refused exactly where it
/// is taken, which leaves it taken; otherwise it is taken afterwards. Taking it
/// again is refused until it is freed and succeeds from then on. Neither taking
/// nor freeing it touches anything else.
pub proof fn law_lock_admits_one(inv: InvocationView, key: DataKey<Text>)
    ensures
        enter_refusal(inv) == if locked(inv.slots) {
            refuse(RouterError::ReentrantCall)
        } else {
            None
        },
        locked(enter_effect(inv).slots),
        enter_refusal(enter_effect(inv)) == refuse(RouterError::ReentrantCall),
        !locked(exit_effect(inv).slots),
        enter_refusal(exit_effect(enter_effect(inv))) is None,
        !(key is ReentrancyLock) ==> agree(enter_effect(inv).slots, inv.slots, key) && agree(
            exit_effect(inv).slots,
            inv.slots,
            key,
        ),
        enter_effect(inv).events == inv.events,
        exit_effect(inv).events == inv.events,
{
}

/// While a route holds the lock no other is accepted. An accepted route leaves
/// the lock free, so that no later one is refused as re-entrant because of it.
pub proof fn law_routes_do_not_nest(
    inv: InvocationView,
    s: Text,
    d: Text,
    amount: i128,
    timestamp: u64,
    signers: Seq<Text>,
    next: Request,
)
    ensures
        locked(inv.slots) ==> !accepted(inv, Request::ComputeRouteFee(s, d, amount)),
        !locked(effect(inv, Request::ComputeRouteFee(s, d, amount)).slots),
        refusal(
            resumed(effect(inv, Request::ComputeRouteFee(s, d, amount)), timestamp, signers),
            next,
        ) != refuse(RouterError::ReentrantCall),
{
    let then = resumed(effect(inv, Request::ComputeRouteFee(s, d, amount)), timestamp, signers);
    if let Request::SetPairFeesBps(entries) = next {
        lemma_fee_errors(then.slots, entries);
    }
}

/// A batch of fees is faulty for the size of a fee or for want of a
/// registration.
proof fn lemma_fee_errors(slots: Slots, entries: Seq<(Text, Text, u32)>)
    ensures
        first_fee_error(slots, entries) matches Some(error) ==> error == RouterError::FeeBpsTooHigh
            || error == RouterError::PairNotRegistered,
    decreases entries.len(),
{
    if entries.len() > 0 {
        lemma_fee_errors(slots, entries.drop_last());
    }
}

} // verus!
