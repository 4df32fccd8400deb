//! A batch does what its entries do one by one.

use vstd::prelude::*;
use crate::config::MAX_BATCH_SIZE;
use crate::event::Event;
use crate::invocation::InvocationView;
use crate::pairs::lemma_no_fee_error;
use crate::rules::fee_bps;
use crate::rules::fee_entry_error;
use crate::rules::first_fee_error;
use crate::rules::register_batch_effect;
use crate::rules::register_batch_refusal;
use crate::rules::register_effect;
use crate::rules::register_refusal;
use crate::rules::registered;
use crate::rules::set_fee_batch_effect;
use crate::rules::set_fee_batch_refusal;
use crate::rules::set_fee_effect;
use crate::rules::set_fee_refusal;
use crate::rules::Text;
use crate::storage::DataKey;
use crate::storage::Slots;
use crate::storage::Value;

verus! {

/// Two states of the storage agree on a slot.
pub open spec fn agree(a: Slots, b: Slots, key: DataKey<Text>) -> bool {
    &&& a.contains_key(key) == b.contains_key(key)
    &&& a.contains_key(key) ==> a[key] == b[key]
}

/// Registering a batch registers each of its pairs, touches no other slot and
/// publishes one event per pair, in order.
pub proof fn law_register_batch(inv: InvocationView, pairs: Seq<(Text, Text)>)
    ensures
        ({
            let post = register_batch_effect(inv, pairs);
            &&& post.timestamp == inv.timestamp
            &&& post.signers == inv.signers
            &&& post.events.len() == inv.events.len() + pairs.len()
            &&& inv.events.is_prefix_of(post.events)
            &&& forall|i: int|
                0 <= i < pairs.len() ==> #[trigger] post.events[inv.events.len() + i]
                    == Event::<Text, Text>::PairRegistered(pairs[i].0, pairs[i].1)
            &&& forall|i: int|
                0 <= i < pairs.len() ==> registered(
                    post.slots,
                    (#[trigger] pairs[i]).0,
                    pairs[i].1,
                )
            &&& forall|s: Text, d: Text|
                #![trigger post.slots.contains_key(DataKey::Pair(s, d))]
                pairs.contains((s, d)) ==> post.slots.contains_key(DataKey::Pair(s, d))
                    && post.slots[DataKey::Pair(s, d)] == Value::<Text>::Bool(true)
            &&& forall|key: DataKey<Text>|
                (key matches DataKey::Pair(s, d) ==> !pairs.contains((s, d))) ==> #[trigger] agree(
                    post.slots,
                    inv.slots,
                    key,
                )
        }),
    decreases pairs.len(),
{
    if pairs.len() > 0 {
        let head = pairs.drop_last();
        let last = pairs.last();
        law_register_batch(inv, head);
        let mid = register_batch_effect(inv, head);
        let post = register_batch_effect(inv, pairs);
        assert forall|s: Text, d: Text| pairs.contains((s, d)) <==> head.contains((s, d)) || (s, d)
            == last by {
            if pairs.contains((s, d)) {
                let i = choose|i: int| 0 <= i < pairs.len() && pairs[i] == (s, d);
                if i < head.len() {
                    assert(head[i] == (s, d));
                }
            }
            if head.contains((s, d)) {
                let i = choose|i: int| 0 <= i < head.len() && head[i] == (s, d);
                assert(pairs[i] == (s, d));
            }
            assert(pairs[pairs.len() - 1] == last);
        }
        assert forall|i: int| 0 <= i < pairs.len() implies registered(
            post.slots,
            (#[trigger] pairs[i]).0,
            pairs[i].1,
        ) by {
            if i < head.len() {
                assert(head[i] == pairs[i]);
            }
        }
        assert forall|key: DataKey<Text>|
            (key matches DataKey::Pair(s, d) ==> !pairs.contains((s, d))) implies #[trigger] agree(
            post.slots,
            inv.slots,
            key,
        ) by {
            assert(agree(mid.slots, inv.slots, key));
        }
    }
}

/// The entry that sets the fee of `(source, destination)` last, if any does.
pub open spec fn last_fee(
    entries: Seq<(Text, Text, u32)>,
    source: Text,
    destination: Text,
) -> Option<u32>
    decreases entries.len(),
{
    if entries.len() == 0 {
        None
    } else if entries.last().0 == source && entries.last().1 == destination {
        Some(entries.last().2)
    } else {
        last_fee(entries.drop_last(), source, destination)
    }
}

/// Setting a batch of fees gives each pair the fee of its last entry, touches
/// no other slot and publishes one event per entry, in order.
pub proof fn law_fee_batch(inv: InvocationView, entries: Seq<(Text, Text, u32)>)
    ensures
        ({
            let post = set_fee_batch_effect(inv, entries);
            &&& post.timestamp == inv.timestamp
            &&& post.signers == inv.signers
            &&& post.events.len() == inv.events.len() + entries.len()
            &&& inv.events.is_prefix_of(post.events)
            &&& forall|i: int|
                0 <= i < entries.len() ==> #[trigger] post.events[inv.events.len() + i]
                    == Event::<Text, Text>::FeeSet(entries[i].0, entries[i].1, entries[i].2)
            &&& forall|s: Text, d: Text|
                #![trigger fee_bps(post.slots, s, d)]
                fee_bps(post.slots, s, d) == last_fee(entries, s, d).unwrap_or(
                    fee_bps(inv.slots, s, d),
                )
            &&& forall|s: Text, d: Text|
                #![trigger last_fee(entries, s, d)]
                last_fee(entries, s, d) matches Some(bps) ==> post.slots.contains_key(
                    DataKey::PairFeeBps(s, d),
                ) && post.slots[DataKey::PairFeeBps(s, d)] == Value::<Text>::U32(bps)
            &&& forall|key: DataKey<Text>|
                (key matches DataKey::PairFeeBps(s, d) ==> last_fee(entries, s, d) is None)
                    ==> #[trigger] agree(post.slots, inv.slots, key)
        }),
    decreases entries.len(),
{
    if entries.len() > 0 {
        let head = entries.drop_last();
        law_fee_batch(inv, head);
        let mid = set_fee_batch_effect(inv, head);
        let post = set_fee_batch_effect(inv, entries);
        assert forall|s: Text, d: Text|
            #![trigger fee_bps(post.slots, s, d)]
            fee_bps(post.slots, s, d) == last_fee(entries, s, d).unwrap_or(
                fee_bps(inv.slots, s, d),
            ) by {
            assert(fee_bps(mid.slots, s, d) == last_fee(head, s, d).unwrap_or(
                fee_bps(inv.slots, s, d),
            ));
        }
        assert forall|s: Text, d: Text|
            #![trigger last_fee(entries, s, d)]
            last_fee(entries, s, d) matches Some(bps) implies post.slots.contains_key(
            DataKey::PairFeeBps(s, d),
        ) && post.slots[DataKey::PairFeeBps(s, d)] == Value::<Text>::U32(
            last_fee(entries, s, d).unwrap(),
        ) by {
            if entries.last().0 != s || entries.last().1 != d {
                assert(last_fee(head, s, d) is Some);
            }
        }
        assert forall|key: DataKey<Text>|
            (key matches DataKey::PairFeeBps(s, d) ==> last_fee(entries, s, d)
                is None) implies #[trigger] agree(post.slots, inv.slots, key) by {
            assert(agree(mid.slots, inv.slots, key));
        }
    }
}

/// A batch of registrations is accepted exactly where it is neither empty nor
/// too large and its pairs could be registered one after another.
pub proof fn law_register_batch_is_its_entries(inv: InvocationView, pairs: Seq<(Text, Text)>)
    requires
        0 < pairs.len() <= MAX_BATCH_SIZE,
    ensures
        register_batch_refusal(inv, pairs) is None <==> forall|i: int|
            0 <= i < pairs.len() ==> #[trigger] register_refusal(
                register_batch_effect(inv, pairs.take(i)),
                pairs[i].0,
                pairs[i].1,
            ) is None,
        forall|i: int|
            0 <= i < pairs.len() ==> #[trigger] register_batch_effect(inv, pairs.take(i + 1))
                == register_effect(
                register_batch_effect(inv, pairs.take(i)),
                pairs[i].0,
                pairs[i].1,
            ),
{
    assert forall|i: int| 0 <= i < pairs.len() implies #[trigger] register_batch_effect(
        inv,
        pairs.take(i + 1),
    ) == register_effect(register_batch_effect(inv, pairs.take(i)), pairs[i].0, pairs[i].1) by {
        assert(pairs.take(i + 1).drop_last() =~= pairs.take(i));
    }
    assert forall|i: int| 0 <= i < pairs.len() implies (#[trigger] register_refusal(
        register_batch_effect(inv, pairs.take(i)),
        pairs[i].0,
        pairs[i].1,
    ) is None <==> register_refusal(inv, pairs[i].0, pairs[i].1) is None) by {
        law_register_batch(inv, pairs.take(i));
        let mid = register_batch_effect(inv, pairs.take(i));
        assert(agree(mid.slots, inv.slots, DataKey::Paused));
        assert(agree(mid.slots, inv.slots, DataKey::Admin));
    }
    if forall|i: int|
        0 <= i < pairs.len() ==> #[trigger] register_refusal(
            register_batch_effect(inv, pairs.take(i)),
            pairs[i].0,
            pairs[i].1,
        ) is None {
        assert forall|i: int| 0 <= i < pairs.len() implies (#[trigger] pairs[i]).0 != pairs[i].1 by {
            assert(register_refusal(
                register_batch_effect(inv, pairs.take(i)),
                pairs[i].0,
                pairs[i].1,
            ) is None);
        }
        assert(register_refusal(
            register_batch_effect(inv, pairs.take(0)),
            pairs[0].0,
            pairs[0].1,
        ) is None);
    }
}

/// A batch of fees is accepted exactly where it is neither empty nor too large
/// and its fees could be set one after another.
pub proof fn law_fee_batch_is_its_entries(inv: InvocationView, entries: Seq<(Text, Text, u32)>)
    requires
        0 < entries.len() <= MAX_BATCH_SIZE,
    ensures
        set_fee_batch_refusal(inv, entries) is None <==> forall|i: int|
            0 <= i < entries.len() ==> #[trigger] set_fee_refusal(
                set_fee_batch_effect(inv, entries.take(i)),
                entries[i].0,
                entries[i].1,
                entries[i].2,
            ) is None,
        forall|i: int|
            0 <= i < entries.len() ==> #[trigger] set_fee_batch_effect(inv, entries.take(i + 1))
                == set_fee_effect(
                set_fee_batch_effect(inv, entries.take(i)),
                entries[i].0,
                entries[i].1,
                entries[i].2,
            ),
{
    assert forall|i: int| 0 <= i < entries.len() implies #[trigger] set_fee_batch_effect(
        inv,
        entries.take(i + 1),
    ) == set_fee_effect(
        set_fee_batch_effect(inv, entries.take(i)),
        entries[i].0,
        entries[i].1,
        entries[i].2,
    ) by {
        assert(entries.take(i + 1).drop_last() =~= entries.take(i));
    }
    assert forall|i: int| 0 <= i < entries.len() implies (#[trigger] set_fee_refusal(
        set_fee_batch_effect(inv, entries.take(i)),
        entries[i].0,
        entries[i].1,
        entries[i].2,
    ) is None <==> set_fee_refusal(inv, entries[i].0, entries[i].1, entries[i].2) is None) by {
        law_fee_batch(inv, entries.take(i));
        let mid = set_fee_batch_effect(inv, entries.take(i));
        assert(agree(mid.slots, inv.slots, DataKey::Paused));
        assert(agree(mid.slots, inv.slots, DataKey::Admin));
        assert(agree(mid.slots, inv.slots, DataKey::Pair(entries[i].0, entries[i].1)));
    }
    if set_fee_batch_refusal(inv, entries) is None {
        assert forall|i: int| 0 <= i < entries.len() implies set_fee_refusal(
            inv,
            (#[trigger] entries[i]).0,
            entries[i].1,
            entries[i].2,
        ) is None by {
            lemma_no_fee_error(inv.slots, entries, i);
        }
    }
    if forall|i: int|
        0 <= i < entries.len() ==> #[trigger] set_fee_refusal(
            set_fee_batch_effect(inv, entries.take(i)),
            entries[i].0,
            entries[i].1,
            entries[i].2,
        ) is None {
        assert forall|i: int| 0 <= i < entries.len() implies fee_entry_error(
            inv.slots,
            (#[trigger] entries[i]).0,
            entries[i].1,
            entries[i].2,
        ) is None by {
            assert(set_fee_refusal(
                set_fee_batch_effect(inv, entries.take(i)),
                entries[i].0,
                entries[i].1,
                entries[i].2,
            ) is None);
        }
        lemma_all_fees_fine(inv.slots, entries);
        assert(set_fee_refusal(
            set_fee_batch_effect(inv, entries.take(0)),
            entries[0].0,
            entries[0].1,
            entries[0].2,
        ) is None);
    }
}

/// Where each entry is fine, the batch is.
proof fn lemma_all_fees_fine(slots: Slots, entries: Seq<(Text, Text, u32)>)
    requires
        forall|i: int|
            0 <= i < entries.len() ==> fee_entry_error(
                slots,
                (#[trigger] entries[i]).0,
                entries[i].1,
                entries[i].2,
            ) is None,
    ensures
        first_fee_error(slots, entries) is None,
    decreases entries.len(),
{
    if entries.len() > 0 {
        assert forall|i: int| 0 <= i < entries.drop_last().len() implies fee_entry_error(
            slots,
            (#[trigger] entries.drop_last()[i]).0,
            entries.drop_last()[i].1,
            entries.drop_last()[i].2,
        ) is None by {
            assert(entries.drop_last()[i] == entries[i]);
        }
        lemma_all_fees_fine(slots, entries.drop_last());
        assert(entries[entries.len() - 1] == entries.last());
    }
}

} // verus!
