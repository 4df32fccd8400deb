//! What every accepted request keeps. A refused one changes nothing.

use vstd::prelude::*;
use crate::event::Event;
use crate::invocation::InvocationView;
use crate::laws::batch::agree;
use crate::laws::batch::last_fee;
use crate::laws::batch::law_fee_batch;
use crate::laws::batch::law_register_batch;
use crate::pairs::lemma_no_fee_error;
use crate::request::accepted;
use crate::request::effect;
use crate::request::refusal;
use crate::request::Request;
use crate::rules::admin;
use crate::rules::first_fee_error;
use crate::rules::locked;
use crate::rules::oracle;
use crate::rules::pending_admin;
use crate::rules::register_batch_effect;
use crate::rules::register_batch_refusal;
use crate::rules::registered;
use crate::rules::route_count;
use crate::rules::set_fee_batch_effect;
use crate::rules::set_fee_batch_refusal;
use crate::rules::total_routes;
use crate::rules::volume;
use crate::rules::Text;
use crate::storage::admits;
use crate::storage::sound;
use crate::storage::DataKey;
use crate::storage::Slots;

verus! {

/// The pair `(source, destination)` that a slot belongs to, if it belongs to one.
pub open spec fn pair_of(key: DataKey<Text>) -> Option<(Text, Text)> {
    match key {
        DataKey::Pair(s, d) => Some((s, d)),
        DataKey::PairFeeBps(s, d) => Some((s, d)),
        DataKey::PairMinAmount(s, d) => Some((s, d)),
        DataKey::PairMaxAmount(s, d) => Some((s, d)),
        DataKey::PairLiquidity(s, d) => Some((s, d)),
        DataKey::PairLastRouteAt(s, d) => Some((s, d)),
        DataKey::PairRouteCount(s, d) => Some((s, d)),
        DataKey::PairVolume(s, d) => Some((s, d)),
        DataKey::PairCooldown(s, d) => Some((s, d)),
        _ => None,
    }
}

/// A batch of fees has an entry for the pair.
pub open spec fn prices(entries: Seq<(Text, Text, u32)>, source: Text, destination: Text) -> bool {
    exists|i: int|
        0 <= i < entries.len() && (#[trigger] entries[i]).0 == source && entries[i].1
            == destination
}

/// `request` names the pair.
pub open spec fn concerns(request: Request, pair: (Text, Text)) -> bool {
    match request {
        Request::RegisterPair(s, d) => pair == (s, d),
        Request::RegisterPairs(pairs) => pairs.contains(pair),
        Request::UnregisterPair(s, d) => pair == (s, d),
        Request::PurgePairMetrics(s, d) => pair == (s, d),
        Request::SetPairFeeBps(s, d, _) => pair == (s, d),
        Request::SetPairFeesBps(entries) => prices(entries, pair.0, pair.1),
        Request::SetPairMinAmount(s, d, _) => pair == (s, d),
        Request::SetPairMaxAmount(s, d, _) => pair == (s, d),
        Request::SetPairLiquidity(_, s, d, _) => pair == (s, d),
        Request::SetPairCooldown(s, d, _) => pair == (s, d),
        Request::ComputeRouteFee(s, d, _) => pair == (s, d),
        _ => false,
    }
}

/// A pair without an entry in a batch of fees keeps its fee, and a pair with
/// an entry takes the fee of one.
proof fn lemma_last_fee(entries: Seq<(Text, Text, u32)>, s: Text, d: Text)
    ensures
        last_fee(entries, s, d) is Some <==> prices(entries, s, d),
        last_fee(entries, s, d) matches Some(bps) ==> exists|i: int|
            0 <= i < entries.len() && (#[trigger] entries[i]).0 == s && entries[i].1 == d
                && entries[i].2 == bps,
    decreases entries.len(),
{
    if entries.len() > 0 {
        let head = entries.drop_last();
        lemma_last_fee(head, s, d);
        assert(entries[entries.len() - 1] == entries.last());
        if last_fee(head, s, d) is Some {
            let bps = last_fee(head, s, d).unwrap();
            let i = choose|i: int|
                0 <= i < head.len() && (#[trigger] head[i]).0 == s && head[i].1 == d && head[i].2
                    == bps;
            assert(entries[i] == head[i]);
        }
        if prices(entries, s, d) {
            let i = choose|i: int|
                0 <= i < entries.len() && (#[trigger] entries[i]).0 == s && entries[i].1 == d;
            if i < head.len() {
                assert(head[i] == entries[i]);
            }
        }
    }
}

/// Every slot keeps a value of its type and in its range: fees stay at or
/// below the limit, amounts, liquidity and ceiling stay non-negative.
pub proof fn law_slots_stay_sound(inv: InvocationView, request: Request)
    requires
        sound(inv.slots),
        accepted(inv, request),
    ensures
        sound(effect(inv, request).slots),
{
    let post = effect(inv, request);
    match request {
        Request::RegisterPairs(pairs) => {
            law_register_batch(inv, pairs);
            assert forall|key: DataKey<Text>| #[trigger]
                post.slots.contains_key(key) implies admits(key, post.slots[key]) by {
                if let DataKey::Pair(s, d) = key {
                    if !pairs.contains((s, d)) {
                        assert(agree(post.slots, inv.slots, key));
                    }
                } else {
                    assert(agree(post.slots, inv.slots, key));
                }
            }
        },
        Request::SetPairFeesBps(entries) => {
            law_fee_batch(inv, entries);
            assert forall|key: DataKey<Text>| #[trigger]
                post.slots.contains_key(key) implies admits(key, post.slots[key]) by {
                if let DataKey::PairFeeBps(s, d) = key {
                    lemma_last_fee(entries, s, d);
                    if last_fee(entries, s, d) is None {
                        assert(agree(post.slots, inv.slots, key));
                    } else {
                        let bps = last_fee(entries, s, d).unwrap();
                        let i = choose|i: int|
                            0 <= i < entries.len() && (#[trigger] entries[i]).0 == s
                                && entries[i].1 == d && entries[i].2 == bps;
                        lemma_no_fee_error(inv.slots, entries, i);
                    }
                } else {
                    assert(agree(post.slots, inv.slots, key));
                }
            }
        },
        _ => {},
    }
}

/// The slots hold fee, bounds and liquidity of registered pairs only.
pub open spec fn configured_only_if_registered(slots: Slots) -> bool {
    forall|s: Text, d: Text|
        #![trigger registered(slots, s, d)]
        slots.contains_key(DataKey::PairFeeBps(s, d)) || slots.contains_key(
            DataKey::PairMinAmount(s, d),
        ) || slots.contains_key(DataKey::PairMaxAmount(s, d)) || slots.contains_key(
            DataKey::PairLiquidity(s, d),
        ) ==> registered(slots, s, d)
}

/// Registration comes first: no request leaves fee, bounds or liquidity of a
/// pair that is not registered.
pub proof fn law_registration_comes_first(inv: InvocationView, request: Request)
    requires
        configured_only_if_registered(inv.slots),
        accepted(inv, request),
    ensures
        configured_only_if_registered(effect(inv, request).slots),
{
    let post = effect(inv, request);
    assert forall|s: Text, d: Text|
        #![trigger registered(post.slots, s, d)]
        post.slots.contains_key(DataKey::PairFeeBps(s, d)) || post.slots.contains_key(
            DataKey::PairMinAmount(s, d),
        ) || post.slots.contains_key(DataKey::PairMaxAmount(s, d)) || post.slots.contains_key(
            DataKey::PairLiquidity(s, d),
        ) implies registered(post.slots, s, d) by {
        let before = registered(inv.slots, s, d);
        match request {
            Request::RegisterPairs(pairs) => {
                law_register_batch(inv, pairs);
                assert(agree(post.slots, inv.slots, DataKey::PairFeeBps(s, d)));
                assert(agree(post.slots, inv.slots, DataKey::PairMinAmount(s, d)));
                assert(agree(post.slots, inv.slots, DataKey::PairMaxAmount(s, d)));
                assert(agree(post.slots, inv.slots, DataKey::PairLiquidity(s, d)));
                if pairs.contains((s, d)) {
                    assert(post.slots.contains_key(DataKey::Pair(s, d)));
                } else {
                    assert(agree(post.slots, inv.slots, DataKey::Pair(s, d)));
                }
            },
            Request::SetPairFeesBps(entries) => {
                law_fee_batch(inv, entries);
                lemma_last_fee(entries, s, d);
                assert(agree(post.slots, inv.slots, DataKey::Pair(s, d)));
                assert(agree(post.slots, inv.slots, DataKey::PairMinAmount(s, d)));
                assert(agree(post.slots, inv.slots, DataKey::PairMaxAmount(s, d)));
                assert(agree(post.slots, inv.slots, DataKey::PairLiquidity(s, d)));
                if last_fee(entries, s, d) is Some {
                    let bps = last_fee(entries, s, d).unwrap();
                    let i = choose|i: int|
                        0 <= i < entries.len() && (#[trigger] entries[i]).0 == s && entries[i].1
                            == d && entries[i].2 == bps;
                    lemma_no_fee_error(inv.slots, entries, i);
                } else {
                    assert(agree(post.slots, inv.slots, DataKey::PairFeeBps(s, d)));
                }
            },
            _ => {},
        }
    }
}

/// A request changes neither the ledger time nor the signers, and only appends
/// events.
pub proof fn law_events_are_only_appended(inv: InvocationView, request: Request)
    ensures
        effect(inv, request).timestamp == inv.timestamp,
        effect(inv, request).signers == inv.signers,
        inv.events.is_prefix_of(effect(inv, request).events),
{
    match request {
        Request::RegisterPairs(pairs) => {
            law_register_batch(inv, pairs);
        },
        Request::SetPairFeesBps(entries) => {
            law_fee_batch(inv, entries);
        },
        _ => {},
    }
}

/// `request` may write the slot `key`.
pub open spec fn sets(request: Request, key: DataKey<Text>) -> bool {
    match key {
        DataKey::Admin => request is Constructor || request is AcceptAdminTransfer,
        DataKey::PendingAdmin | DataKey::PendingAdminEta => request is ProposeAdminTransfer
            || request is AcceptAdminTransfer || request is CancelAdminTransfer,
        DataKey::Paused => request is Pause || request is Unpause,
        DataKey::FeeRecipient => request is SetFeeRecipient,
        DataKey::SchemaVersion => request is MigrateV1ToV2,
        DataKey::Timelock => request is SetTimelock,
        DataKey::MaxFeeAbsolute => request is SetMaxFeeAbsolute,
        DataKey::Oracle => request is SetOracle || request is RemoveOracle,
        DataKey::TotalRoutesAllTime | DataKey::ReentrancyLock => request is ComputeRouteFee,
        DataKey::Pair(s, d) => concerns(request, (s, d)) && (request is RegisterPair
            || request is RegisterPairs || request is UnregisterPair),
        DataKey::PairFeeBps(s, d) => concerns(request, (s, d)) && (request is SetPairFeeBps
            || request is SetPairFeesBps || request is UnregisterPair),
        DataKey::PairMinAmount(s, d) => concerns(request, (s, d)) && (request is SetPairMinAmount
            || request is UnregisterPair),
        DataKey::PairMaxAmount(s, d) => concerns(request, (s, d)) && (request is SetPairMaxAmount
            || request is UnregisterPair),
        DataKey::PairLiquidity(s, d) => concerns(request, (s, d)) && (request is SetPairLiquidity
            || request is ComputeRouteFee || request is UnregisterPair),
        DataKey::PairLastRouteAt(s, d) => concerns(request, (s, d)) && (request is ComputeRouteFee
            || request is PurgePairMetrics),
        DataKey::PairRouteCount(s, d) => concerns(request, (s, d)) && (request is ComputeRouteFee
            || request is PurgePairMetrics),
        DataKey::PairVolume(s, d) => concerns(request, (s, d)) && (request is ComputeRouteFee
            || request is PurgePairMetrics),
        DataKey::PairCooldown(s, d) => concerns(request, (s, d)) && request is SetPairCooldown,
    }
}

/// A slot changes only by a request that is there to write it.
pub proof fn law_slot_waits_for_its_setters(
    inv: InvocationView,
    request: Request,
    key: DataKey<Text>,
)
    requires
        !sets(request, key),
    ensures
        agree(effect(inv, request).slots, inv.slots, key),
{
    match request {
        Request::RegisterPairs(pairs) => {
            law_register_batch(inv, pairs);
        },
        Request::SetPairFeesBps(entries) => {
            law_fee_batch(inv, entries);
            if let DataKey::PairFeeBps(s, d) = key {
                lemma_last_fee(entries, s, d);
            }
        },
        _ => {},
    }
}

/// Pairs are independent, the two directions of a pair included: a request
/// changes no slot of a pair that it does not name.
pub proof fn law_pairs_are_independent(inv: InvocationView, request: Request, key: DataKey<Text>)
    requires
        pair_of(key) matches Some(pair) && !concerns(request, pair),
    ensures
        agree(effect(inv, request).slots, inv.slots, key),
{
    match request {
        Request::RegisterPairs(pairs) => {
            law_register_batch(inv, pairs);
        },
        Request::SetPairFeesBps(entries) => {
            law_fee_batch(inv, entries);
            lemma_last_fee(entries, pair_of(key).unwrap().0, pair_of(key).unwrap().1);
        },
        _ => {},
    }
}

/// The counters never fall, and neither do the counters of a pair, except
/// where its metrics are purged.
pub proof fn law_counters_never_fall(inv: InvocationView, request: Request, s: Text, d: Text)
    requires
        sound(inv.slots),
        accepted(inv, request),
    ensures
        total_routes(effect(inv, request).slots) >= total_routes(inv.slots),
        request != Request::PurgePairMetrics(s, d) ==> {
            &&& route_count(effect(inv, request).slots, s, d) >= route_count(inv.slots, s, d)
            &&& volume(effect(inv, request).slots, s, d) >= volume(inv.slots, s, d)
        },
{
    let post = effect(inv, request);
    match request {
        Request::RegisterPairs(pairs) => {
            law_register_batch(inv, pairs);
        },
        Request::SetPairFeesBps(entries) => {
            law_fee_batch(inv, entries);
        },
        _ => {},
    }
    if request is RegisterPairs || request is SetPairFeesBps {
        assert(agree(post.slots, inv.slots, DataKey::TotalRoutesAllTime));
        assert(agree(post.slots, inv.slots, DataKey::PairRouteCount(s, d)));
        assert(agree(post.slots, inv.slots, DataKey::PairVolume(s, d)));
    }
}

/// No request leaves the route lock taken that found it free.
pub proof fn law_lock_is_left_free(inv: InvocationView, request: Request)
    requires
        !locked(inv.slots),
    ensures
        !locked(effect(inv, request).slots),
{
    let post = effect(inv, request);
    match request {
        Request::RegisterPairs(pairs) => {
            law_register_batch(inv, pairs);
            assert(agree(post.slots, inv.slots, DataKey::ReentrancyLock));
        },
        Request::SetPairFeesBps(entries) => {
            law_fee_batch(inv, entries);
            assert(agree(post.slots, inv.slots, DataKey::ReentrancyLock));
        },
        _ => {},
    }
}

/// A request depends on a slot: one of the contract as a whole, or one of a
/// pair that the request names.
pub open spec fn depends_on(request: Request, key: DataKey<Text>) -> bool {
    match pair_of(key) {
        Some(pair) => concerns(request, pair),
        None => true,
    }
}

/// A request is decided by the slots of the contract as a whole and of the
/// pairs that it names: where two invocations agree on those, it has the same
/// answer, the same new events, and leaves those slots the same.
pub proof fn law_decided_by_its_own_slots(a: InvocationView, b: InvocationView, request: Request)
    requires
        a.timestamp == b.timestamp,
        a.signers == b.signers,
        a.events == b.events,
        forall|key: DataKey<Text>|
            depends_on(request, key) ==> #[trigger] agree(a.slots, b.slots, key),
    ensures
        refusal(a, request) == refusal(b, request),
        effect(a, request).events == effect(b, request).events,
        forall|key: DataKey<Text>|
            depends_on(request, key) ==> #[trigger] agree(
                effect(a, request).slots,
                effect(b, request).slots,
                key,
            ),
{
    lemma_agree_on_contract(a, b, request);
    match request {
        Request::RegisterPairs(pairs) => {
            lemma_register_batch_local(a, b, pairs);
        },
        Request::SetPairFeesBps(entries) => {
            lemma_fee_batch_local(a, b, entries);
        },
        _ => {
            lemma_agree_on_pair(a, b, request);
            match request {
                Request::SetPairFeeBps(s, d, _)
                | Request::SetPairMinAmount(s, d, _)
                | Request::SetPairMaxAmount(s, d, _)
                | Request::SetPairLiquidity(_, s, d, _)
                | Request::ComputeRouteFee(s, d, _) => {
                    assert(concerns(request, (s, d)));
                },
                _ => {},
            }
            assert forall|key: DataKey<Text>| depends_on(request, key) implies #[trigger] agree(
                effect(a, request).slots,
                effect(b, request).slots,
                key,
            ) by {
                assert(agree(a.slots, b.slots, key));
            }
        },
    }
}

/// Two lists of events that grew from the same list by the same events.
proof fn lemma_same_events(
    start: Seq<Event<Text, Text>>,
    a: Seq<Event<Text, Text>>,
    b: Seq<Event<Text, Text>>,
)
    requires
        start.is_prefix_of(a),
        start.is_prefix_of(b),
        a.len() == b.len(),
        forall|i: int|
            0 <= i < a.len() - start.len() ==> #[trigger] a[start.len() + i] == b[start.len() + i],
    ensures
        a == b,
{
    assert forall|j: int| 0 <= j < a.len() implies a[j] == b[j] by {
        if j < start.len() {
            assert(a[j] == start[j] && b[j] == start[j]);
        } else {
            assert(a[start.len() + (j - start.len())] == b[start.len() + (j - start.len())]);
        }
    }
    assert(a =~= b);
}

/// A batch of registrations is decided by its own slots.
proof fn lemma_register_batch_local(a: InvocationView, b: InvocationView, pairs: Seq<(Text, Text)>)
    requires
        a.timestamp == b.timestamp,
        a.signers == b.signers,
        a.events == b.events,
        forall|key: DataKey<Text>|
            depends_on(Request::RegisterPairs(pairs), key) ==> #[trigger] agree(
                a.slots,
                b.slots,
                key,
            ),
    ensures
        register_batch_refusal(a, pairs) == register_batch_refusal(b, pairs),
        register_batch_effect(a, pairs).events == register_batch_effect(b, pairs).events,
        forall|key: DataKey<Text>|
            depends_on(Request::RegisterPairs(pairs), key) ==> #[trigger] agree(
                register_batch_effect(a, pairs).slots,
                register_batch_effect(b, pairs).slots,
                key,
            ),
{
    let request = Request::RegisterPairs(pairs);
    let (after_a, after_b) = (register_batch_effect(a, pairs), register_batch_effect(b, pairs));
    lemma_agree_on_contract(a, b, request);
    law_register_batch(a, pairs);
    law_register_batch(b, pairs);
    lemma_same_events(a.events, after_a.events, after_b.events);
    assert forall|key: DataKey<Text>| depends_on(request, key) implies #[trigger] agree(
        after_a.slots,
        after_b.slots,
        key,
    ) by {
        assert(agree(a.slots, b.slots, key));
        if !(key is Pair) {
            assert(agree(after_a.slots, a.slots, key));
            assert(agree(after_b.slots, b.slots, key));
        }
    }
}

/// A batch of fees is decided by its own slots.
proof fn lemma_fee_batch_local(
    a: InvocationView,
    b: InvocationView,
    entries: Seq<(Text, Text, u32)>,
)
    requires
        a.timestamp == b.timestamp,
        a.signers == b.signers,
        a.events == b.events,
        forall|key: DataKey<Text>|
            depends_on(Request::SetPairFeesBps(entries), key) ==> #[trigger] agree(
                a.slots,
                b.slots,
                key,
            ),
    ensures
        set_fee_batch_refusal(a, entries) == set_fee_batch_refusal(b, entries),
        set_fee_batch_effect(a, entries).events == set_fee_batch_effect(b, entries).events,
        forall|key: DataKey<Text>|
            depends_on(Request::SetPairFeesBps(entries), key) ==> #[trigger] agree(
                set_fee_batch_effect(a, entries).slots,
                set_fee_batch_effect(b, entries).slots,
                key,
            ),
{
    let request = Request::SetPairFeesBps(entries);
    let (after_a, after_b) = (set_fee_batch_effect(a, entries), set_fee_batch_effect(b, entries));
    lemma_agree_on_contract(a, b, request);
    law_fee_batch(a, entries);
    law_fee_batch(b, entries);
    assert forall|i: int| 0 <= i < entries.len() implies agree(
        a.slots,
        b.slots,
        DataKey::Pair((#[trigger] entries[i]).0, entries[i].1),
    ) by {
        assert(prices(entries, entries[i].0, entries[i].1));
        assert(depends_on(request, DataKey::Pair(entries[i].0, entries[i].1)));
    }
    lemma_same_fee_error(a.slots, b.slots, entries);
    lemma_same_events(a.events, after_a.events, after_b.events);
    assert forall|key: DataKey<Text>| depends_on(request, key) implies #[trigger] agree(
        after_a.slots,
        after_b.slots,
        key,
    ) by {
        assert(agree(a.slots, b.slots, key));
        if let DataKey::PairFeeBps(s, d) = key {
            lemma_last_fee(entries, s, d);
        } else {
            assert(agree(after_a.slots, a.slots, key));
            assert(agree(after_b.slots, b.slots, key));
        }
    }
}

/// The slots of the contract as a whole, each named.
proof fn lemma_agree_on_contract(a: InvocationView, b: InvocationView, request: Request)
    requires
        forall|key: DataKey<Text>|
            depends_on(request, key) ==> #[trigger] agree(a.slots, b.slots, key),
    ensures
        agree(a.slots, b.slots, DataKey::Admin),
        agree(a.slots, b.slots, DataKey::PendingAdmin),
        agree(a.slots, b.slots, DataKey::PendingAdminEta),
        agree(a.slots, b.slots, DataKey::Paused),
        agree(a.slots, b.slots, DataKey::ReentrancyLock),
        agree(a.slots, b.slots, DataKey::SchemaVersion),
        agree(a.slots, b.slots, DataKey::Timelock),
        agree(a.slots, b.slots, DataKey::Oracle),
        agree(a.slots, b.slots, DataKey::TotalRoutesAllTime),
{
}

/// The slots of the pair that a request names, each named.
proof fn lemma_agree_on_pair(a: InvocationView, b: InvocationView, request: Request)
    requires
        forall|key: DataKey<Text>|
            depends_on(request, key) ==> #[trigger] agree(a.slots, b.slots, key),
    ensures
        forall|s: Text, d: Text|
            #![trigger concerns(request, (s, d))]
            concerns(request, (s, d)) ==> {
                &&& agree(a.slots, b.slots, DataKey::Pair(s, d))
                &&& agree(a.slots, b.slots, DataKey::PairMinAmount(s, d))
                &&& agree(a.slots, b.slots, DataKey::PairMaxAmount(s, d))
                &&& agree(a.slots, b.slots, DataKey::PairLiquidity(s, d))
                &&& agree(a.slots, b.slots, DataKey::PairLastRouteAt(s, d))
                &&& agree(a.slots, b.slots, DataKey::PairRouteCount(s, d))
                &&& agree(a.slots, b.slots, DataKey::PairVolume(s, d))
                &&& agree(a.slots, b.slots, DataKey::PairCooldown(s, d))
            },
{
}

/// Where the registrations agree, so do the faults of a batch of fees.
proof fn lemma_same_fee_error(a: Slots, b: Slots, entries: Seq<(Text, Text, u32)>)
    requires
        forall|i: int|
            0 <= i < entries.len() ==> agree(
                a,
                b,
                DataKey::Pair((#[trigger] entries[i]).0, entries[i].1),
            ),
    ensures
        first_fee_error(a, entries) == first_fee_error(b, entries),
    decreases entries.len(),
{
    if entries.len() > 0 {
        assert forall|i: int| 0 <= i < entries.drop_last().len() implies agree(
            a,
            b,
            DataKey::Pair((#[trigger] entries.drop_last()[i]).0, entries.drop_last()[i].1),
        ) by {
            assert(entries.drop_last()[i] == entries[i]);
        }
        lemma_same_fee_error(a, b, entries.drop_last());
        assert(entries[entries.len() - 1] == entries.last());
    }
}

/// Without the admin's signature a request is accepted only if it deploys the
/// contract, claims a handover, records a route, or is the oracle's report of
/// liquidity.
pub proof fn law_admin_gates_the_rest(inv: InvocationView, request: Request, a: Text)
    requires
        admin(inv.slots) == Some(a),
        !inv.signers.contains(a),
        accepted(inv, request),
    ensures
        request is Constructor || request is AcceptAdminTransfer || request is ComputeRouteFee || (
        request matches Request::SetPairLiquidity(caller, _, _, _) && oracle(inv.slots) == Some(
            caller,
        ) && inv.signers.contains(caller)),
{
}

/// The oracle may report liquidity and nothing else: where neither the admin
/// nor the proposed admin signed, a request that is neither a deployment nor a
/// route changes no slot but the liquidity of pairs.
pub proof fn law_oracle_only_reports_liquidity(
    inv: InvocationView,
    request: Request,
    a: Text,
    key: DataKey<Text>,
)
    requires
        admin(inv.slots) == Some(a),
        !inv.signers.contains(a),
        pending_admin(inv.slots) matches Some(p) ==> !inv.signers.contains(p),
        accepted(inv, request),
        !(request is Constructor),
        !(request is ComputeRouteFee),
        !(key is PairLiquidity),
    ensures
        agree(effect(inv, request).slots, inv.slots, key),
{
}

/// Where no admin is set nobody passes the admin gate.
pub proof fn law_gate_is_shut_without_an_admin(inv: InvocationView, request: Request)
    requires
        admin(inv.slots) is None,
        accepted(inv, request),
    ensures
        request is Constructor || request is AcceptAdminTransfer || request is ComputeRouteFee,
{
}

} // verus!
