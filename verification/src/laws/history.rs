//! What holds after any run of invocations.

use vstd::prelude::*;
use crate::config::MAX_COOLDOWN_SECS;
use crate::invocation::InvocationView;
use crate::laws::batch::agree;
use crate::laws::batch::law_fee_batch;
use crate::laws::batch::law_register_batch;
use crate::laws::state::configured_only_if_registered;
use crate::laws::state::law_lock_is_left_free;
use crate::laws::state::law_registration_comes_first;
use crate::laws::state::law_slot_waits_for_its_setters;
use crate::laws::state::law_slots_stay_sound;
use crate::laws::state::sets;
use crate::request::accepted;
use crate::request::effect;
use crate::request::Request;
use crate::rules::clamp_i128;
use crate::rules::clamp_u64;
use crate::rules::cooldown;
use crate::rules::fee_ceiling;
use crate::rules::locked;
use crate::rules::oracle;
use crate::rules::paused;
use crate::rules::pending_admin;
use crate::rules::pending_admin_eta;
use crate::rules::registered;
use crate::rules::route_count;
use crate::rules::schema_version;
use crate::rules::timelock;
use crate::rules::total_routes;
use crate::rules::usable_liquidity;
use crate::rules::volume;
use crate::rules::Text;
use crate::storage::sound;
use crate::storage::DataKey;
use crate::storage::Slots;

verus! {

/// One invocation from outside: when, by whom, and what for.
pub struct Call {
    pub timestamp: u64,
    pub signers: Seq<Text>,
    pub request: Request,
}

/// The invocation that a call makes on `slots`.
pub open spec fn invocation(slots: Slots, call: Call) -> InvocationView {
    InvocationView { timestamp: call.timestamp, signers: call.signers, slots, events: Seq::empty() }
}

/// The call is accepted on `slots`.
pub open spec fn succeeds(slots: Slots, call: Call) -> bool {
    accepted(invocation(slots, call), call.request)
}

/// The slots after the call: unchanged where it is refused.
pub open spec fn after(slots: Slots, call: Call) -> Slots {
    if succeeds(slots, call) {
        effect(invocation(slots, call), call.request).slots
    } else {
        slots
    }
}

/// The slots after the calls, one after another.
pub open spec fn run(slots: Slots, calls: Seq<Call>) -> Slots
    decreases calls.len(),
{
    if calls.len() == 0 {
        slots
    } else {
        after(run(slots, calls.drop_last()), calls.last())
    }
}

/// How many of the calls record a route.
pub open spec fn routes(slots: Slots, calls: Seq<Call>) -> nat
    decreases calls.len(),
{
    if calls.len() == 0 {
        0
    } else {
        let before = run(slots, calls.drop_last());
        routes(slots, calls.drop_last()) + if calls.last().request is ComputeRouteFee && succeeds(
            before,
            calls.last(),
        ) {
            1nat
        } else {
            0
        }
    }
}

/// The amounts that the calls route through the pair, in order.
pub open spec fn routed(slots: Slots, calls: Seq<Call>, s: Text, d: Text) -> Seq<i128>
    decreases calls.len(),
{
    if calls.len() == 0 {
        Seq::empty()
    } else {
        let earlier = routed(slots, calls.drop_last(), s, d);
        match calls.last().request {
            Request::ComputeRouteFee(source, destination, amount) => if source == s && destination
                == d && succeeds(run(slots, calls.drop_last()), calls.last()) {
                earlier.push(amount)
            } else {
                earlier
            },
            _ => earlier,
        }
    }
}

/// Sum of amounts.
pub open spec fn sum(amounts: Seq<i128>) -> int
    decreases amounts.len(),
{
    if amounts.len() == 0 {
        0
    } else {
        sum(amounts.drop_last()) + amounts.last()
    }
}

/// Every registered pair has two different ends, and no cooldown exceeds its
/// limit.
pub open spec fn pairs_in_order(slots: Slots) -> bool {
    &&& forall|s: Text, d: Text| #[trigger] registered(slots, s, d) ==> s != d
    &&& forall|s: Text, d: Text| #[trigger] cooldown(slots, s, d) <= MAX_COOLDOWN_SECS
}

/// No request breaks what holds of pairs.
proof fn lemma_pairs_stay_in_order(inv: InvocationView, request: Request)
    requires
        pairs_in_order(inv.slots),
        accepted(inv, request),
    ensures
        pairs_in_order(effect(inv, request).slots),
{
    let post = effect(inv, request);
    assert forall|s: Text, d: Text| #[trigger] registered(post.slots, s, d) implies s != d by {
        if s == d {
            assert(!registered(inv.slots, s, d));
            if let Request::RegisterPairs(pairs) = request {
                if pairs.contains((s, d)) {
                    let i = choose|i: int| 0 <= i < pairs.len() && pairs[i] == (s, d);
                    assert(pairs[i].0 == pairs[i].1);
                }
            }
            if !sets(request, DataKey::Pair(s, d)) {
                law_slot_waits_for_its_setters(inv, request, DataKey::Pair(s, d));
            }
        }
    }
    assert forall|s: Text, d: Text| #[trigger] cooldown(post.slots, s, d) <= MAX_COOLDOWN_SECS by {
        assert(cooldown(inv.slots, s, d) <= MAX_COOLDOWN_SECS);
        if !sets(request, DataKey::PairCooldown(s, d)) {
            law_slot_waits_for_its_setters(inv, request, DataKey::PairCooldown(s, d));
        }
    }
}

/// Whatever was called, in whatever order and by whomever: every slot holds a
/// value of its type and range, every registered pair has two different ends,
/// only registered pairs have fee, bounds or liquidity, no cooldown exceeds its
/// limit, and the route lock is free.
pub proof fn law_every_reachable_state_is_valid(calls: Seq<Call>)
    ensures
        sound(run(Map::empty(), calls)),
        forall|s: Text, d: Text| #[trigger]
            registered(run(Map::empty(), calls), s, d) ==> s != d,
        configured_only_if_registered(run(Map::empty(), calls)),
        forall|s: Text, d: Text| #[trigger]
            cooldown(run(Map::empty(), calls), s, d) <= MAX_COOLDOWN_SECS,
        !locked(run(Map::empty(), calls)),
    decreases calls.len(),
{
    if calls.len() > 0 {
        let before = run(Map::empty(), calls.drop_last());
        let call = calls.last();
        law_every_reachable_state_is_valid(calls.drop_last());
        if succeeds(before, call) {
            law_slots_stay_sound(invocation(before, call), call.request);
            lemma_pairs_stay_in_order(invocation(before, call), call.request);
            law_registration_comes_first(invocation(before, call), call.request);
            law_lock_is_left_free(invocation(before, call), call.request);
        }
    }
}

/// A slot is as it was after any calls that cannot write it.
pub proof fn law_slot_outlasts_other_calls(slots: Slots, calls: Seq<Call>, key: DataKey<Text>)
    requires
        forall|i: int| 0 <= i < calls.len() ==> !sets((#[trigger] calls[i]).request, key),
    ensures
        agree(run(slots, calls), slots, key),
    decreases calls.len(),
{
    if calls.len() > 0 {
        let head = calls.drop_last();
        let before = run(slots, head);
        assert forall|i: int| 0 <= i < head.len() implies !sets(
            (#[trigger] head[i]).request,
            key,
        ) by {
            assert(head[i] == calls[i]);
        }
        law_slot_outlasts_other_calls(slots, head, key);
        assert(calls[calls.len() - 1] == calls.last());
        law_slot_waits_for_its_setters(
            invocation(before, calls.last()),
            calls.last().request,
            key,
        );
    }
}

/// Whoever is not the nominee of a handover does not become it without being
/// proposed. So a handover that was cancelled, claimed or replaced stays gone.
pub proof fn law_nominee_is_proposed(slots: Slots, calls: Seq<Call>, nominee: Text)
    requires
        pending_admin(slots) != Some(nominee),
        forall|i: int|
            0 <= i < calls.len() ==> (#[trigger] calls[i]).request
                != Request::ProposeAdminTransfer(nominee),
    ensures
        pending_admin(run(slots, calls)) != Some(nominee),
    decreases calls.len(),
{
    if calls.len() > 0 {
        let head = calls.drop_last();
        let inv = invocation(run(slots, head), calls.last());
        assert forall|i: int| 0 <= i < head.len() implies (#[trigger] head[i]).request
            != Request::ProposeAdminTransfer(nominee) by {
            assert(head[i] == calls[i]);
        }
        law_nominee_is_proposed(slots, head, nominee);
        assert(calls[calls.len() - 1] == calls.last());
        if !sets(calls.last().request, DataKey::PendingAdmin) {
            law_slot_waits_for_its_setters(inv, calls.last().request, DataKey::PendingAdmin);
        }
    }
}

/// Until the next proposal, a handover is queued as it was proposed or not
/// pending any more.
proof fn lemma_queued_or_gone(slots: Slots, calls: Seq<Call>)
    requires
        forall|i: int|
            0 <= i < calls.len() ==> !((#[trigger] calls[i]).request is ProposeAdminTransfer),
    ensures
        pending_admin(run(slots, calls)) is None || (pending_admin(run(slots, calls))
            == pending_admin(slots) && pending_admin_eta(run(slots, calls)) == pending_admin_eta(
            slots,
        )),
    decreases calls.len(),
{
    if calls.len() > 0 {
        let head = calls.drop_last();
        let request = calls.last().request;
        let inv = invocation(run(slots, head), calls.last());
        assert forall|i: int| 0 <= i < head.len() implies !((
        #[trigger] head[i]).request is ProposeAdminTransfer) by {
            assert(head[i] == calls[i]);
        }
        lemma_queued_or_gone(slots, head);
        assert(calls[calls.len() - 1] == calls.last());
        if !sets(request, DataKey::PendingAdmin) {
            law_slot_waits_for_its_setters(inv, request, DataKey::PendingAdmin);
            law_slot_waits_for_its_setters(inv, request, DataKey::PendingAdminEta);
        }
    }
}

/// A nominee waits out the delay: whatever is called after a proposal, until
/// the next one only its nominee can claim the role, and not before the delay
/// that was in force when it was proposed has passed.
pub proof fn law_nominee_waits_out_the_delay(
    inv: InvocationView,
    nominee: Text,
    calls: Seq<Call>,
    claim: Call,
)
    requires
        accepted(inv, Request::ProposeAdminTransfer(nominee)),
        forall|i: int|
            0 <= i < calls.len() ==> !((#[trigger] calls[i]).request is ProposeAdminTransfer),
        claim.request is AcceptAdminTransfer,
        succeeds(run(effect(inv, Request::ProposeAdminTransfer(nominee)).slots, calls), claim),
    ensures
        claim.request == Request::AcceptAdminTransfer(nominee),
        claim.timestamp >= inv.timestamp + timelock(inv.slots) || claim.timestamp == u64::MAX,
{
    lemma_queued_or_gone(effect(inv, Request::ProposeAdminTransfer(nominee)).slots, calls);
}

/// Where no handover is pending, none is until one is proposed.
pub proof fn law_no_handover_without_proposal(slots: Slots, calls: Seq<Call>)
    requires
        pending_admin(slots) is None,
        forall|i: int|
            0 <= i < calls.len() ==> !((#[trigger] calls[i]).request is ProposeAdminTransfer),
    ensures
        pending_admin(run(slots, calls)) is None,
{
    if let Some(nominee) = pending_admin(run(slots, calls)) {
        law_nominee_is_proposed(slots, calls, nominee);
    }
}

/// Whoever is not the oracle does not become it without being set. So an
/// oracle that was removed or replaced has lost its power for good, unless it
/// is set again.
pub proof fn law_oracle_is_set(slots: Slots, calls: Seq<Call>, former: Text)
    requires
        oracle(slots) != Some(former),
        forall|i: int|
            0 <= i < calls.len() ==> (#[trigger] calls[i]).request != Request::SetOracle(former),
    ensures
        oracle(run(slots, calls)) != Some(former),
    decreases calls.len(),
{
    if calls.len() > 0 {
        let head = calls.drop_last();
        let inv = invocation(run(slots, head), calls.last());
        assert forall|i: int| 0 <= i < head.len() implies (#[trigger] head[i]).request
            != Request::SetOracle(former) by {
            assert(head[i] == calls[i]);
        }
        law_oracle_is_set(slots, head, former);
        assert(calls[calls.len() - 1] == calls.last());
        if !sets(calls.last().request, DataKey::Oracle) {
            law_slot_waits_for_its_setters(inv, calls.last().request, DataKey::Oracle);
        }
    }
}

/// Where no oracle is set, none is until the next one is set.
pub proof fn law_no_oracle_unless_set(slots: Slots, calls: Seq<Call>)
    requires
        oracle(slots) is None,
        forall|i: int| 0 <= i < calls.len() ==> !((#[trigger] calls[i]).request is SetOracle),
    ensures
        oracle(run(slots, calls)) is None,
{
    if let Some(someone) = oracle(run(slots, calls)) {
        law_oracle_is_set(slots, calls, someone);
    }
}

/// The fee ceiling holds until the next one is set.
pub proof fn law_ceiling_holds(slots: Slots, calls: Seq<Call>)
    requires
        forall|i: int|
            0 <= i < calls.len() ==> !((#[trigger] calls[i]).request is SetMaxFeeAbsolute),
    ensures
        fee_ceiling(run(slots, calls)) == fee_ceiling(slots),
{
    law_slot_outlasts_other_calls(slots, calls, DataKey::MaxFeeAbsolute);
}

/// A migrated schema stays migrated.
pub proof fn law_schema_stays_migrated(slots: Slots, calls: Seq<Call>)
    requires
        schema_version(slots) == 2,
    ensures
        schema_version(run(slots, calls)) == 2,
    decreases calls.len(),
{
    if calls.len() > 0 {
        let inv = invocation(run(slots, calls.drop_last()), calls.last());
        law_schema_stays_migrated(slots, calls.drop_last());
        if !sets(calls.last().request, DataKey::SchemaVersion) {
            law_slot_waits_for_its_setters(inv, calls.last().request, DataKey::SchemaVersion);
        }
    }
}

/// A paused router stands still: until it is unpaused, and unless the contract
/// is deployed anew, no call changes any slot.
pub proof fn law_paused_router_stands_still(slots: Slots, calls: Seq<Call>)
    requires
        paused(slots),
        forall|i: int|
            0 <= i < calls.len() ==> !((#[trigger] calls[i]).request is Unpause)
                && !(calls[i].request is Constructor),
    ensures
        run(slots, calls) == slots,
    decreases calls.len(),
{
    if calls.len() > 0 {
        let head = calls.drop_last();
        let call = calls.last();
        assert forall|i: int| 0 <= i < head.len() implies !((#[trigger] head[i]).request is Unpause)
            && !(head[i].request is Constructor) by {
            assert(head[i] == calls[i]);
        }
        law_paused_router_stands_still(slots, head);
        assert(calls[calls.len() - 1] == call);
        if !(call.request is Pause) && !(call.request is Upgrade) {
            assert(!succeeds(slots, call));
        }
        assert(run(slots, calls) =~= slots);
    }
}

/// The counters of the contract and of a pair are touched by routes and, for
/// those of the pair, by a purge.
proof fn lemma_counters_kept(slots: Slots, call: Call, s: Text, d: Text)
    ensures
        !(call.request is ComputeRouteFee) ==> total_routes(after(slots, call)) == total_routes(
            slots,
        ),
        !(call.request matches Request::ComputeRouteFee(x, y, _) && x == s && y == d)
            && call.request != Request::PurgePairMetrics(s, d) ==> route_count(
            after(slots, call),
            s,
            d,
        ) == route_count(slots, s, d) && volume(after(slots, call), s, d) == volume(slots, s, d),
{
    let inv = invocation(slots, call);
    let post = effect(inv, call.request);
    if call.request is RegisterPairs || call.request is SetPairFeesBps {
        match call.request {
            Request::RegisterPairs(pairs) => {
                law_register_batch(inv, pairs);
            },
            Request::SetPairFeesBps(entries) => {
                law_fee_batch(inv, entries);
            },
            _ => {},
        }
        assert(agree(post.slots, inv.slots, DataKey::TotalRoutesAllTime));
        assert(agree(post.slots, inv.slots, DataKey::PairRouteCount(s, d)));
        assert(agree(post.slots, inv.slots, DataKey::PairVolume(s, d)));
    }
}

/// The global counter is the number of routes ever recorded, up to the largest
/// number it can hold.
pub proof fn law_total_counts_every_route(calls: Seq<Call>)
    ensures
        total_routes(run(Map::empty(), calls)) == clamp_u64(routes(Map::empty(), calls) as int),
    decreases calls.len(),
{
    if calls.len() > 0 {
        let before = run(Map::empty(), calls.drop_last());
        law_total_counts_every_route(calls.drop_last());
        lemma_counters_kept(before, calls.last(), Seq::empty(), Seq::empty());
    }
}

/// From deployment or a purge on, and until the next purge, the metrics of a
/// pair are those of the routes recorded through it: their number and the sum
/// of their amounts, each up to the largest number it can hold.
pub proof fn law_metrics_count_the_pair(start: Slots, calls: Seq<Call>, s: Text, d: Text)
    requires
        route_count(start, s, d) == 0,
        volume(start, s, d) == 0,
        forall|i: int|
            0 <= i < calls.len() ==> (#[trigger] calls[i]).request != Request::PurgePairMetrics(
                s,
                d,
            ),
    ensures
        route_count(run(start, calls), s, d) == clamp_u64(
            routed(start, calls, s, d).len() as int,
        ),
        volume(run(start, calls), s, d) == clamp_i128(
            sum(routed(start, calls, s, d)),
        ),
        sum(routed(start, calls, s, d)) >= 0,
    decreases calls.len(),
{
    if calls.len() > 0 {
        let head = calls.drop_last();
        let before = run(start, head);
        assert forall|i: int| 0 <= i < head.len() implies (#[trigger] head[i]).request
            != Request::PurgePairMetrics(s, d) by {
            assert(head[i] == calls[i]);
        }
        law_metrics_count_the_pair(start, head, s, d);
        lemma_counters_kept(before, calls.last(), s, d);
        assert(calls[calls.len() - 1] == calls.last());
        if let Request::ComputeRouteFee(x, y, amount) = calls.last().request {
            let earlier = routed(start, head, s, d);
            assert(earlier.push(amount).drop_last() =~= earlier);
        }
    }
}

/// Liquidity is spent once: after liquidity was reported for a pair, and until
/// it is reported anew or the pair is unregistered, what was routed through it
/// and what is left add up to the report. So no more than the report is ever
/// routed.
pub proof fn law_liquidity_is_spent_once(slots: Slots, calls: Seq<Call>, s: Text, d: Text)
    requires
        0 <= usable_liquidity(slots, s, d) < i128::MAX,
        forall|i: int|
            0 <= i < calls.len() ==> !((#[trigger] calls[i]).request matches
                Request::SetPairLiquidity(_, x, y, _) && x == s && y == d) && calls[i].request
                != Request::UnregisterPair(s, d),
    ensures
        usable_liquidity(run(slots, calls), s, d) + sum(routed(slots, calls, s, d))
            == usable_liquidity(slots, s, d),
        0 <= sum(routed(slots, calls, s, d)) <= usable_liquidity(slots, s, d),
    decreases calls.len(),
{
    if calls.len() > 0 {
        let head = calls.drop_last();
        let call = calls.last();
        let before = run(slots, head);
        assert forall|i: int| 0 <= i < head.len() implies !((#[trigger] head[i]).request matches
            Request::SetPairLiquidity(_, x, y, _) && x == s && y == d) && head[i].request
            != Request::UnregisterPair(s, d) by {
            assert(head[i] == calls[i]);
        }
        law_liquidity_is_spent_once(slots, head, s, d);
        assert(calls[calls.len() - 1] == call);
        let inv = invocation(before, call);
        let post = effect(inv, call.request);
        match call.request {
            Request::RegisterPairs(pairs) => {
                law_register_batch(inv, pairs);
                assert(agree(post.slots, inv.slots, DataKey::PairLiquidity(s, d)));
            },
            Request::SetPairFeesBps(entries) => {
                law_fee_batch(inv, entries);
                assert(agree(post.slots, inv.slots, DataKey::PairLiquidity(s, d)));
            },
            Request::ComputeRouteFee(x, y, amount) => {
                let earlier = routed(slots, head, s, d);
                assert(earlier.push(amount).drop_last() =~= earlier);
            },
            _ => {},
        }
    }
}

} // verus!
