//! What an accepted request leaves behind: the content of every slot it writes,
//! and the events it publishes.

use vstd::prelude::*;
use crate::event::Event;
use crate::invocation::InvocationView;
use crate::laws::batch::agree;
use crate::laws::batch::last_fee;
use crate::laws::batch::law_fee_batch;
use crate::laws::batch::law_register_batch;
use crate::laws::readings::holds;
use crate::request::accepted;
use crate::request::effect;
use crate::request::Request;
use crate::rules::oracle;
use crate::rules::route_count;
use crate::rules::timelock;
use crate::rules::total_routes;
use crate::rules::usable_liquidity;
use crate::rules::volume;
use crate::rules::Text;
use crate::storage::DataKey;
use crate::storage::Value;

verus! {

/// What a setter sets stands in its slot, whatever stood there before.
pub proof fn law_setters_write(inv: InvocationView, request: Request)
    ensures
        ({
            let slots = effect(inv, request).slots;
            match request {
                Request::Constructor(a) => holds(slots, DataKey::Admin, Value::Address(a)),
                Request::MigrateV1ToV2 => holds(slots, DataKey::SchemaVersion, Value::U32(2)),
                Request::Pause => holds(slots, DataKey::Paused, Value::Bool(true)),
                Request::Unpause => holds(slots, DataKey::Paused, Value::Bool(false)),
                Request::SetTimelock(t) => holds(slots, DataKey::Timelock, Value::U64(t)),
                Request::ProposeAdminTransfer(a) => holds(
                    slots,
                    DataKey::PendingAdmin,
                    Value::Address(a),
                ),
                Request::AcceptAdminTransfer(a) => holds(slots, DataKey::Admin, Value::Address(a)),
                Request::SetFeeRecipient(a) => holds(
                    slots,
                    DataKey::FeeRecipient,
                    Value::Address(a),
                ),
                Request::SetMaxFeeAbsolute(n) => holds(
                    slots,
                    DataKey::MaxFeeAbsolute,
                    Value::I128(n),
                ),
                Request::SetOracle(a) => holds(slots, DataKey::Oracle, Value::Address(a)),
                Request::RegisterPair(s, d) => holds(slots, DataKey::Pair(s, d), Value::Bool(true)),
                Request::SetPairFeeBps(s, d, n) => holds(
                    slots,
                    DataKey::PairFeeBps(s, d),
                    Value::U32(n),
                ),
                Request::SetPairMinAmount(s, d, n) => holds(
                    slots,
                    DataKey::PairMinAmount(s, d),
                    Value::I128(n),
                ),
                Request::SetPairMaxAmount(s, d, n) => holds(
                    slots,
                    DataKey::PairMaxAmount(s, d),
                    Value::I128(n),
                ),
                Request::SetPairLiquidity(_, s, d, n) => holds(
                    slots,
                    DataKey::PairLiquidity(s, d),
                    Value::I128(n),
                ),
                Request::SetPairCooldown(s, d, n) => holds(
                    slots,
                    DataKey::PairCooldown(s, d),
                    Value::U64(n),
                ),
                _ => true,
            }
        }),
{
}

/// What a request ends leaves its slots empty: a handover that is claimed or
/// cancelled, an oracle that is removed, a pair that is unregistered, metrics
/// that are purged.
pub proof fn law_endings_empty_slots(inv: InvocationView, request: Request)
    ensures
        ({
            let slots = effect(inv, request).slots;
            match request {
                Request::AcceptAdminTransfer(_) | Request::CancelAdminTransfer => {
                    &&& !slots.contains_key(DataKey::PendingAdmin)
                    &&& !slots.contains_key(DataKey::PendingAdminEta)
                },
                Request::RemoveOracle => !slots.contains_key(DataKey::Oracle),
                Request::UnregisterPair(s, d) => {
                    &&& !slots.contains_key(DataKey::Pair(s, d))
                    &&& !slots.contains_key(DataKey::PairFeeBps(s, d))
                    &&& !slots.contains_key(DataKey::PairMinAmount(s, d))
                    &&& !slots.contains_key(DataKey::PairMaxAmount(s, d))
                    &&& !slots.contains_key(DataKey::PairLiquidity(s, d))
                },
                Request::PurgePairMetrics(s, d) => {
                    &&& !slots.contains_key(DataKey::PairRouteCount(s, d))
                    &&& !slots.contains_key(DataKey::PairVolume(s, d))
                    &&& !slots.contains_key(DataKey::PairLastRouteAt(s, d))
                },
                _ => true,
            }
        }),
{
}

/// A proposal queues the handover for the ledger time plus the delay in force,
/// whatever was pending before; a time past the end of time is its end.
pub proof fn law_proposal_queues_the_delay(inv: InvocationView, new_admin: Text, eta: u64)
    ensures
        inv.timestamp + timelock(inv.slots) == eta ==> holds(
            effect(inv, Request::ProposeAdminTransfer(new_admin)).slots,
            DataKey::PendingAdminEta,
            Value::U64(eta),
        ),
        inv.timestamp + timelock(inv.slots) > u64::MAX ==> holds(
            effect(inv, Request::ProposeAdminTransfer(new_admin)).slots,
            DataKey::PendingAdminEta,
            Value::U64(u64::MAX),
        ),
{
}

/// A batch registers each pair that it names.
pub proof fn law_batch_registers_its_pairs(inv: InvocationView, pairs: Seq<(Text, Text)>, i: int)
    requires
        0 <= i < pairs.len(),
    ensures
        holds(
            effect(inv, Request::RegisterPairs(pairs)).slots,
            DataKey::Pair(pairs[i].0, pairs[i].1),
            Value::Bool(true),
        ),
{
    law_register_batch(inv, pairs);
    assert(pairs.contains(pairs[i]));
    assert(effect(inv, Request::RegisterPairs(pairs)).slots.contains_key(
        DataKey::Pair(pairs[i].0, pairs[i].1),
    ));
}

/// A batch of fees gives a pair the fee of the last entry that names it.
pub proof fn law_last_entry_sets_the_fee(
    inv: InvocationView,
    entries: Seq<(Text, Text, u32)>,
    i: int,
)
    requires
        0 <= i < entries.len(),
        forall|j: int|
            i < j < entries.len() ==> (#[trigger] entries[j]).0 != entries[i].0 || entries[j].1
                != entries[i].1,
    ensures
        holds(
            effect(inv, Request::SetPairFeesBps(entries)).slots,
            DataKey::PairFeeBps(entries[i].0, entries[i].1),
            Value::U32(entries[i].2),
        ),
{
    law_fee_batch(inv, entries);
    lemma_last_fee_is(entries, i);
}

/// The last entry that names a pair is the one that counts.
proof fn lemma_last_fee_is(entries: Seq<(Text, Text, u32)>, i: int)
    requires
        0 <= i < entries.len(),
        forall|j: int|
            i < j < entries.len() ==> (#[trigger] entries[j]).0 != entries[i].0 || entries[j].1
                != entries[i].1,
    ensures
        last_fee(entries, entries[i].0, entries[i].1) == Some(entries[i].2),
    decreases entries.len(),
{
    let last = entries.len() - 1;
    assert(entries[last] == entries.last());
    if i < last {
        let head = entries.drop_last();
        assert forall|j: int| i < j < head.len() implies (#[trigger] head[j]).0 != head[i].0
            || head[j].1 != head[i].1 by {
            assert(head[j] == entries[j]);
        }
        lemma_last_fee_is(head, i);
        assert(head[i] == entries[i]);
    }
}

/// `n` is one more than `before`, or the largest number a counter can hold.
pub open spec fn counted_up(before: u64, n: u64) -> bool {
    n == before + 1 || (before == u64::MAX && n == u64::MAX)
}

/// A route moves both counters up by one and the volume by its amount, each as
/// far as it goes, stamps the ledger time and leaves the lock free. It takes
/// its amount off the liquidity that was reported; an unbounded one it leaves
/// as it is.
pub proof fn law_route_writes(inv: InvocationView, s: Text, d: Text, amount: i128)
    requires
        accepted(inv, Request::ComputeRouteFee(s, d, amount)),
        volume(inv.slots, s, d) >= 0,
    ensures
        ({
            let slots = effect(inv, Request::ComputeRouteFee(s, d, amount)).slots;
            let liquidity = usable_liquidity(inv.slots, s, d);
            let moved = volume(inv.slots, s, d) + amount;
            &&& exists|n: u64| #[trigger]
                counted_up(total_routes(inv.slots), n) && holds(
                    slots,
                    DataKey::TotalRoutesAllTime,
                    Value::U64(n),
                )
            &&& exists|n: u64| #[trigger]
                counted_up(route_count(inv.slots, s, d), n) && holds(
                    slots,
                    DataKey::PairRouteCount(s, d),
                    Value::U64(n),
                )
            &&& moved <= i128::MAX ==> holds(
                slots,
                DataKey::PairVolume(s, d),
                Value::I128(moved as i128),
            )
            &&& moved > i128::MAX ==> holds(
                slots,
                DataKey::PairVolume(s, d),
                Value::I128(i128::MAX),
            )
            &&& holds(slots, DataKey::PairLastRouteAt(s, d), Value::U64(inv.timestamp))
            &&& holds(slots, DataKey::ReentrancyLock, Value::Bool(false))
            &&& liquidity < i128::MAX ==> holds(
                slots,
                DataKey::PairLiquidity(s, d),
                Value::I128((liquidity - amount) as i128),
            )
            &&& liquidity == i128::MAX ==> agree(slots, inv.slots, DataKey::PairLiquidity(s, d))
        }),
{
    let slots = effect(inv, Request::ComputeRouteFee(s, d, amount)).slots;
    let total = total_routes(slots);
    let count = route_count(slots, s, d);
    assert(counted_up(total_routes(inv.slots), total));
    assert(counted_up(route_count(inv.slots, s, d), count));
}

/// `post` published exactly `news` after what `inv` had published.
pub open spec fn published(
    inv: InvocationView,
    post: InvocationView,
    news: Seq<Event<Text, Text>>,
) -> bool {
    post.events =~= inv.events + news
}

/// Each request publishes exactly its own events, in order, and these carry
/// what was asked for. Migrating, setting delay, recipient or a bound, and
/// cancelling a handover publish none.
pub proof fn law_what_is_published(inv: InvocationView, request: Request)
    ensures
        ({
            let post = effect(inv, request);
            match request {
                Request::Constructor(a) => published(inv, post, seq![Event::Init(a)]),
                Request::Pause => published(inv, post, seq![Event::Paused(true)]),
                Request::Unpause => published(inv, post, seq![Event::Paused(false)]),
                Request::AcceptAdminTransfer(a) => published(inv, post, seq![Event::Executed(a)]),
                Request::SetMaxFeeAbsolute(n) => published(inv, post, seq![Event::MaxFee(n)]),
                Request::SetOracle(a) => published(inv, post, seq![Event::OracleSet(a)]),
                Request::RemoveOracle => published(
                    inv,
                    post,
                    seq![Event::OracleRemoved(oracle(inv.slots))],
                ),
                Request::Upgrade(hash) => published(inv, post, seq![Event::Upgraded(hash)]),
                Request::RegisterPair(s, d) => published(
                    inv,
                    post,
                    seq![Event::PairRegistered(s, d)],
                ),
                Request::UnregisterPair(s, d) => published(
                    inv,
                    post,
                    seq![Event::PairUnregistered(s, d), Event::ConfigCleared(s, d)],
                ),
                Request::PurgePairMetrics(s, d) => published(
                    inv,
                    post,
                    seq![Event::MetricsReset(s, d)],
                ),
                Request::SetPairFeeBps(s, d, n) => published(
                    inv,
                    post,
                    seq![Event::FeeSet(s, d, n)],
                ),
                Request::SetPairLiquidity(_, s, d, n) => published(
                    inv,
                    post,
                    seq![Event::LiquiditySet(s, d, n)],
                ),
                Request::SetPairCooldown(s, d, n) => published(
                    inv,
                    post,
                    seq![Event::CooldownSet(s, d, n)],
                ),
                Request::Init(_)
                | Request::MigrateV1ToV2
                | Request::SetTimelock(_)
                | Request::CancelAdminTransfer
                | Request::SetFeeRecipient(_)
                | Request::SetPairMinAmount(_, _, _)
                | Request::SetPairMaxAmount(_, _, _) => published(inv, post, Seq::empty()),
                _ => true,
            }
        }),
{
}

/// A proposal publishes the nominee and the time that it queued.
pub proof fn law_proposal_is_published(inv: InvocationView, new_admin: Text, eta: u64)
    requires
        holds(
            effect(inv, Request::ProposeAdminTransfer(new_admin)).slots,
            DataKey::PendingAdminEta,
            Value::U64(eta),
        ),
    ensures
        published(
            inv,
            effect(inv, Request::ProposeAdminTransfer(new_admin)),
            seq![Event::Queued(new_admin, eta)],
        ),
{
}

/// A batch of pairs publishes one registration for each, in order.
pub proof fn law_pair_batch_is_published(inv: InvocationView, pairs: Seq<(Text, Text)>)
    ensures
        published(
            inv,
            effect(inv, Request::RegisterPairs(pairs)),
            Seq::new(pairs.len(), |i: int| Event::PairRegistered(pairs[i].0, pairs[i].1)),
        ),
{
    law_register_batch(inv, pairs);
    let post = effect(inv, Request::RegisterPairs(pairs));
    let news = Seq::new(
        pairs.len(),
        |i: int| Event::<Text, Text>::PairRegistered(pairs[i].0, pairs[i].1),
    );
    assert forall|j: int| 0 <= j < post.events.len() implies post.events[j] == (inv.events
        + news)[j] by {
        if j >= inv.events.len() {
            let i = j - inv.events.len();
            assert(post.events[inv.events.len() + i] == news[i]);
        }
    }
    assert(post.events =~= inv.events + news);
}

/// A batch of fees publishes one change for each entry, in order.
pub proof fn law_fee_batch_is_published(inv: InvocationView, entries: Seq<(Text, Text, u32)>)
    ensures
        published(
            inv,
            effect(inv, Request::SetPairFeesBps(entries)),
            Seq::new(
                entries.len(),
                |i: int| Event::FeeSet(entries[i].0, entries[i].1, entries[i].2),
            ),
        ),
{
    law_fee_batch(inv, entries);
    let post = effect(inv, Request::SetPairFeesBps(entries));
    let news = Seq::new(
        entries.len(),
        |i: int| Event::<Text, Text>::FeeSet(entries[i].0, entries[i].1, entries[i].2),
    );
    assert forall|j: int| 0 <= j < post.events.len() implies post.events[j] == (inv.events
        + news)[j] by {
        if j >= inv.events.len() {
            let i = j - inv.events.len();
            assert(post.events[inv.events.len() + i] == news[i]);
        }
    }
    assert(post.events =~= inv.events + news);
}

/// A route publishes itself, and before that the liquidity that it leaves,
/// where liquidity was reported.
pub proof fn law_route_is_published(inv: InvocationView, s: Text, d: Text, amount: i128)
    requires
        accepted(inv, Request::ComputeRouteFee(s, d, amount)),
    ensures
        ({
            let post = effect(inv, Request::ComputeRouteFee(s, d, amount));
            let liquidity = usable_liquidity(inv.slots, s, d);
            if liquidity == i128::MAX {
                published(inv, post, seq![Event::Route(s, d, amount)])
            } else {
                published(
                    inv,
                    post,
                    seq![
                        Event::LiquidityUsed(s, d, (liquidity - amount) as i128),
                        Event::Route(s, d, amount),
                    ],
                )
            }
        }),
{
}

} // verus!
