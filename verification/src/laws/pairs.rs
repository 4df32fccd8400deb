//! What a pair keeps and loses when it is configured, removed and restored.

use vstd::prelude::*;
use crate::event::Event;
use crate::invocation::InvocationView;
use crate::laws::batch::agree;
use crate::request::accepted;
use crate::request::effect;
use crate::request::Request;
use crate::rules::cooldown;
use crate::rules::fee_bps;
use crate::rules::fee_ceiling;
use crate::rules::last_route_at;
use crate::rules::max_amount;
use crate::rules::min_amount;
use crate::rules::oracle;
use crate::rules::registered;
use crate::rules::reported_liquidity;
use crate::rules::route_count;
use crate::rules::timelock;
use crate::rules::usable_liquidity;
use crate::rules::volume;
use crate::rules::Text;
use crate::storage::address_at;
use crate::storage::DataKey;

verus! {

/// The one slot that a setter writes, if `request` is one.
pub open spec fn target(request: Request) -> Option<DataKey<Text>> {
    match request {
        Request::SetTimelock(_) => Some(DataKey::Timelock),
        Request::SetFeeRecipient(_) => Some(DataKey::FeeRecipient),
        Request::SetMaxFeeAbsolute(_) => Some(DataKey::MaxFeeAbsolute),
        Request::SetOracle(_) => Some(DataKey::Oracle),
        Request::RegisterPair(s, d) => Some(DataKey::Pair(s, d)),
        Request::SetPairFeeBps(s, d, _) => Some(DataKey::PairFeeBps(s, d)),
        Request::SetPairMinAmount(s, d, _) => Some(DataKey::PairMinAmount(s, d)),
        Request::SetPairMaxAmount(s, d, _) => Some(DataKey::PairMaxAmount(s, d)),
        Request::SetPairLiquidity(_, s, d, _) => Some(DataKey::PairLiquidity(s, d)),
        Request::SetPairCooldown(s, d, _) => Some(DataKey::PairCooldown(s, d)),
        _ => None,
    }
}

/// A setter changes its own slot and no other.
pub proof fn law_setter_touches_one_slot(inv: InvocationView, request: Request, key: DataKey<Text>)
    requires
        target(request) is Some,
        target(request) != Some(key),
    ensures
        agree(effect(inv, request).slots, inv.slots, key),
{
}

/// What was set is what is read, whatever was there before.
pub proof fn law_read_after_write(inv: InvocationView, request: Request)
    requires
        target(request) is Some,
    ensures
        ({
            let slots = effect(inv, request).slots;
            match request {
                Request::SetTimelock(delay) => timelock(slots) == delay,
                Request::SetFeeRecipient(recipient) => address_at(slots, DataKey::FeeRecipient)
                    == Some(recipient),
                Request::SetMaxFeeAbsolute(ceiling) => fee_ceiling(slots) == Some(ceiling),
                Request::SetOracle(new_oracle) => oracle(slots) == Some(new_oracle),
                Request::RegisterPair(s, d) => registered(slots, s, d),
                Request::SetPairFeeBps(s, d, bps) => fee_bps(slots, s, d) == bps,
                Request::SetPairMinAmount(s, d, n) => min_amount(slots, s, d) == n,
                Request::SetPairMaxAmount(s, d, n) => max_amount(slots, s, d) == n,
                Request::SetPairLiquidity(_, s, d, n) => reported_liquidity(slots, s, d) == n
                    && usable_liquidity(slots, s, d) == n,
                Request::SetPairCooldown(s, d, secs) => cooldown(slots, s, d) == secs,
                _ => true,
            }
        }),
{
}

/// Repeating a request that registers, unregisters, pauses, unpauses, sets a
/// value, removes the oracle or cancels a handover is accepted again and
/// changes no slot.
pub proof fn law_repeating_changes_nothing(inv: InvocationView, request: Request)
    requires
        accepted(inv, request),
        target(request) is Some || request is Pause || request is Unpause
            || request is UnregisterPair || request is PurgePairMetrics || request is RemoveOracle
            || request is CancelAdminTransfer,
    ensures
        accepted(effect(inv, request), request),
        effect(effect(inv, request), request).slots == effect(inv, request).slots,
{
    assert(effect(effect(inv, request), request).slots =~= effect(inv, request).slots);
}

/// Unregistering a pair ends its route and clears fee, bounds and liquidity.
/// Its history (route count, volume, last route) and its cooldown stay, and so
/// does everything else.
pub proof fn law_unregistering_clears_the_configuration(inv: InvocationView, s: Text, d: Text)
    ensures
        ({
            let post = effect(inv, Request::UnregisterPair(s, d));
            &&& !registered(post.slots, s, d)
            &&& fee_bps(post.slots, s, d) == 0
            &&& min_amount(post.slots, s, d) == 0
            &&& max_amount(post.slots, s, d) == i128::MAX
            &&& reported_liquidity(post.slots, s, d) == 0
            &&& usable_liquidity(post.slots, s, d) == i128::MAX
            &&& route_count(post.slots, s, d) == route_count(inv.slots, s, d)
            &&& volume(post.slots, s, d) == volume(inv.slots, s, d)
            &&& last_route_at(post.slots, s, d) == last_route_at(inv.slots, s, d)
            &&& cooldown(post.slots, s, d) == cooldown(inv.slots, s, d)
            &&& forall|key: DataKey<Text>|
                key != DataKey::Pair(s, d) && key != DataKey::PairFeeBps(s, d) && key
                    != DataKey::PairMinAmount(s, d) && key != DataKey::PairMaxAmount(s, d) && key
                    != DataKey::PairLiquidity(s, d) ==> #[trigger] agree(
                    post.slots,
                    inv.slots,
                    key,
                )
        }),
{
}

/// A pair that was unregistered and registered again starts from the defaults,
/// with its history intact: no stale fee, bound or liquidity comes back.
pub proof fn law_restored_pair_starts_afresh(inv: InvocationView, s: Text, d: Text)
    ensures
        ({
            let post = effect(
                effect(inv, Request::UnregisterPair(s, d)),
                Request::RegisterPair(s, d),
            );
            &&& registered(post.slots, s, d)
            &&& fee_bps(post.slots, s, d) == 0
            &&& min_amount(post.slots, s, d) == 0
            &&& max_amount(post.slots, s, d) == i128::MAX
            &&& usable_liquidity(post.slots, s, d) == i128::MAX
            &&& route_count(post.slots, s, d) == route_count(inv.slots, s, d)
            &&& volume(post.slots, s, d) == volume(inv.slots, s, d)
            &&& last_route_at(post.slots, s, d) == last_route_at(inv.slots, s, d)
        }),
{
}

/// Unregistering a pair of which nothing is stored changes no slot, and still
/// publishes both of its events.
pub proof fn law_unregistering_an_unknown_pair(inv: InvocationView, s: Text, d: Text)
    requires
        !inv.slots.contains_key(DataKey::Pair(s, d)),
        !inv.slots.contains_key(DataKey::PairFeeBps(s, d)),
        !inv.slots.contains_key(DataKey::PairMinAmount(s, d)),
        !inv.slots.contains_key(DataKey::PairMaxAmount(s, d)),
        !inv.slots.contains_key(DataKey::PairLiquidity(s, d)),
    ensures
        effect(inv, Request::UnregisterPair(s, d)).slots == inv.slots,
        effect(inv, Request::UnregisterPair(s, d)).events == inv.events.push(
            Event::PairUnregistered(s, d),
        ).push(Event::ConfigCleared(s, d)),
{
    assert(effect(inv, Request::UnregisterPair(s, d)).slots =~= inv.slots);
}

/// Purging resets the three metrics of the pair and nothing else.
pub proof fn law_purging_resets_the_metrics(inv: InvocationView, s: Text, d: Text)
    ensures
        ({
            let post = effect(inv, Request::PurgePairMetrics(s, d));
            &&& route_count(post.slots, s, d) == 0
            &&& volume(post.slots, s, d) == 0
            &&& last_route_at(post.slots, s, d) is None
            &&& forall|key: DataKey<Text>|
                key != DataKey::PairRouteCount(s, d) && key != DataKey::PairVolume(s, d) && key
                    != DataKey::PairLastRouteAt(s, d) ==> #[trigger] agree(
                    post.slots,
                    inv.slots,
                    key,
                )
        }),
{
}

} // verus!
