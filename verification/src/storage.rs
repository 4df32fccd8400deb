//! The persistent slots of the contract.

use vstd::prelude::*;
use crate::config::MAX_FEE_BPS;
use crate::ident::Address;
use crate::ident::Symbol;

verus! {

/// Key of a persistent slot. `S` is the type of asset symbols; a pair is
/// written source first.
#[derive(Debug, PartialEq, Eq)]
pub enum DataKey<S> {
    /// The operational admin.
    Admin,
    /// Whether the pair is a recognised route.
    Pair(S, S),
    /// Fee of the pair, in basis points.
    PairFeeBps(S, S),
    /// The proposed admin of a handover under way.
    PendingAdmin,
    /// Whether the router is paused.
    Paused,
    /// Smallest routable amount, in source units.
    PairMinAmount(S, S),
    /// Largest routable amount, in source units.
    PairMaxAmount(S, S),
    /// Reported liquidity, in source units.
    PairLiquidity(S, S),
    /// Who receives protocol fees on settlement.
    FeeRecipient,
    /// How many routes were ever recorded, over all pairs.
    TotalRoutesAllTime,
    /// Ledger time of the pair's last route.
    PairLastRouteAt(S, S),
    /// How many routes of the pair were ever recorded.
    PairRouteCount(S, S),
    /// Sum of all amounts routed through the pair, in source units.
    PairVolume(S, S),
    /// Version of the storage layout.
    SchemaVersion,
    /// Governance delay of a handover, in seconds.
    Timelock,
    /// Earliest ledger time at which the pending handover may be accepted.
    PendingAdminEta,
    /// Set while a route is being recorded.
    ReentrancyLock,
    /// Shortest gap between two routes of the pair, in seconds.
    PairCooldown(S, S),
    /// Ceiling on the fee of a single route, in source units.
    MaxFeeAbsolute,
    /// Who besides the admin may report liquidity.
    Oracle,
}

/// Content of a persistent slot. `A` is the type of addresses.
#[derive(Debug, PartialEq, Eq)]
pub enum Value<A> {
    Bool(bool),
    U32(u32),
    U64(u64),
    I128(i128),
    Address(A),
}

/// Slots by key: what a [`Storage`] stands for.
pub type Slots = Map<DataKey<Seq<char>>, Value<Seq<char>>>;

impl View for DataKey<Symbol> {
    type V = DataKey<Seq<char>>;

    open spec fn view(&self) -> DataKey<Seq<char>> {
        match *self {
            DataKey::Admin => DataKey::Admin,
            DataKey::Pair(s, d) => DataKey::Pair(s@, d@),
            DataKey::PairFeeBps(s, d) => DataKey::PairFeeBps(s@, d@),
            DataKey::PendingAdmin => DataKey::PendingAdmin,
            DataKey::Paused => DataKey::Paused,
            DataKey::PairMinAmount(s, d) => DataKey::PairMinAmount(s@, d@),
            DataKey::PairMaxAmount(s, d) => DataKey::PairMaxAmount(s@, d@),
            DataKey::PairLiquidity(s, d) => DataKey::PairLiquidity(s@, d@),
            DataKey::FeeRecipient => DataKey::FeeRecipient,
            DataKey::TotalRoutesAllTime => DataKey::TotalRoutesAllTime,
            DataKey::PairLastRouteAt(s, d) => DataKey::PairLastRouteAt(s@, d@),
            DataKey::PairRouteCount(s, d) => DataKey::PairRouteCount(s@, d@),
            DataKey::PairVolume(s, d) => DataKey::PairVolume(s@, d@),
            DataKey::SchemaVersion => DataKey::SchemaVersion,
            DataKey::Timelock => DataKey::Timelock,
            DataKey::PendingAdminEta => DataKey::PendingAdminEta,
            DataKey::ReentrancyLock => DataKey::ReentrancyLock,
            DataKey::PairCooldown(s, d) => DataKey::PairCooldown(s@, d@),
            DataKey::MaxFeeAbsolute => DataKey::MaxFeeAbsolute,
            DataKey::Oracle => DataKey::Oracle,
        }
    }
}

impl DataKey<Symbol> {
    /// Whether two keys name the same slot.
    pub fn same(&self, other: &DataKey<Symbol>) -> (equal: bool)
        ensures
            equal == (self@ == other@),
    {
        match (self, other) {
            (DataKey::Admin, DataKey::Admin) => true,
            (DataKey::Pair(s, d), DataKey::Pair(t, e)) => s.same(t) && d.same(e),
            (DataKey::PairFeeBps(s, d), DataKey::PairFeeBps(t, e)) => s.same(t) && d.same(e),
            (DataKey::PendingAdmin, DataKey::PendingAdmin) => true,
            (DataKey::Paused, DataKey::Paused) => true,
            (DataKey::PairMinAmount(s, d), DataKey::PairMinAmount(t, e)) => s.same(t) && d.same(e),
            (DataKey::PairMaxAmount(s, d), DataKey::PairMaxAmount(t, e)) => s.same(t) && d.same(e),
            (DataKey::PairLiquidity(s, d), DataKey::PairLiquidity(t, e)) => s.same(t) && d.same(e),
            (DataKey::FeeRecipient, DataKey::FeeRecipient) => true,
            (DataKey::TotalRoutesAllTime, DataKey::TotalRoutesAllTime) => true,
            (DataKey::PairLastRouteAt(s, d), DataKey::PairLastRouteAt(t, e)) => s.same(t) && d.same(e),
            (DataKey::PairRouteCount(s, d), DataKey::PairRouteCount(t, e)) => s.same(t) && d.same(e),
            (DataKey::PairVolume(s, d), DataKey::PairVolume(t, e)) => s.same(t) && d.same(e),
            (DataKey::SchemaVersion, DataKey::SchemaVersion) => true,
            (DataKey::Timelock, DataKey::Timelock) => true,
            (DataKey::PendingAdminEta, DataKey::PendingAdminEta) => true,
            (DataKey::ReentrancyLock, DataKey::ReentrancyLock) => true,
            (DataKey::PairCooldown(s, d), DataKey::PairCooldown(t, e)) => s.same(t) && d.same(e),
            (DataKey::MaxFeeAbsolute, DataKey::MaxFeeAbsolute) => true,
            (DataKey::Oracle, DataKey::Oracle) => true,
            _ => false,
        }
    }
}

impl View for Value<Address> {
    type V = Value<Seq<char>>;

    open spec fn view(&self) -> Value<Seq<char>> {
        match *self {
            Value::Bool(b) => Value::Bool(b),
            Value::U32(n) => Value::U32(n),
            Value::U64(n) => Value::U64(n),
            Value::I128(n) => Value::I128(n),
            Value::Address(a) => Value::Address(a@),
        }
    }
}

impl Clone for Value<Address> {
    fn clone(&self) -> (copy: Self)
        ensures
            copy@ == self@,
    {
        match self {
            Value::Bool(b) => Value::Bool(*b),
            Value::U32(n) => Value::U32(*n),
            Value::U64(n) => Value::U64(*n),
            Value::I128(n) => Value::I128(*n),
            Value::Address(a) => Value::Address(a.clone()),
        }
    }
}

/// `value` has the type of the slot `key` and lies in the range the contract
/// keeps it in.
pub open spec fn admits<S, A>(key: DataKey<S>, value: Value<A>) -> bool {
    match key {
        DataKey::Admin | DataKey::PendingAdmin | DataKey::FeeRecipient | DataKey::Oracle =>
            value is Address,
        DataKey::Paused | DataKey::ReentrancyLock => value is Bool,
        DataKey::Pair(..) => value is Bool,
        DataKey::SchemaVersion => value is U32,
        DataKey::TotalRoutesAllTime | DataKey::Timelock | DataKey::PendingAdminEta => value is U64,
        DataKey::PairLastRouteAt(..) => value is U64,
        DataKey::PairRouteCount(..) => value is U64,
        DataKey::PairCooldown(..) => value is U64,
        DataKey::PairFeeBps(..) => value matches Value::U32(n) && n <= MAX_FEE_BPS,
        DataKey::PairMinAmount(..) => value matches Value::I128(n) && n >= 0,
        DataKey::PairMaxAmount(..) => value matches Value::I128(n) && n > 0,
        DataKey::PairLiquidity(..) => value matches Value::I128(n) && n >= 0,
        DataKey::PairVolume(..) => value matches Value::I128(n) && n >= 0,
        DataKey::MaxFeeAbsolute => value matches Value::I128(n) && n >= 0,
    }
}

/// Every slot holds a value that its key admits.
pub open spec fn sound(slots: Slots) -> bool {
    forall|key: DataKey<Seq<char>>| #[trigger]
        slots.contains_key(key) ==> admits(key, slots[key])
}

/// What the flag slot `key` holds, if anything.
pub open spec fn bool_at(slots: Slots, key: DataKey<Seq<char>>) -> Option<bool> {
    if slots.contains_key(key) && slots[key] is Bool {
        Some(slots[key]->Bool_0)
    } else {
        None
    }
}

/// What the 32-bit slot `key` holds, if anything.
pub open spec fn u32_at(slots: Slots, key: DataKey<Seq<char>>) -> Option<u32> {
    if slots.contains_key(key) && slots[key] is U32 {
        Some(slots[key]->U32_0)
    } else {
        None
    }
}

/// What the 64-bit slot `key` holds, if anything.
pub open spec fn u64_at(slots: Slots, key: DataKey<Seq<char>>) -> Option<u64> {
    if slots.contains_key(key) && slots[key] is U64 {
        Some(slots[key]->U64_0)
    } else {
        None
    }
}

/// What the amount slot `key` holds, if anything.
pub open spec fn i128_at(slots: Slots, key: DataKey<Seq<char>>) -> Option<i128> {
    if slots.contains_key(key) && slots[key] is I128 {
        Some(slots[key]->I128_0)
    } else {
        None
    }
}

/// What the address slot `key` holds, if anything.
pub open spec fn address_at(slots: Slots, key: DataKey<Seq<char>>) -> Option<Seq<char>> {
    if slots.contains_key(key) && slots[key] is Address {
        Some(slots[key]->Address_0)
    } else {
        None
    }
}

/// An address in place of its text form.
pub open spec fn optional_address(address: Option<Address>) -> Option<Seq<char>> {
    match address {
        Some(a) => Some(a@),
        None => None,
    }
}

impl Value<Address> {
    /// Whether the slot `key` admits this value.
    fn fits(&self, key: &DataKey<Symbol>) -> (fit: bool)
        ensures
            fit == admits(key@, self@),
    {
        match key {
            DataKey::Admin | DataKey::PendingAdmin | DataKey::FeeRecipient | DataKey::Oracle =>
                matches!(self, Value::Address(_)),
            DataKey::Paused | DataKey::ReentrancyLock | DataKey::Pair(_, _) =>
                matches!(self, Value::Bool(_)),
            DataKey::SchemaVersion => matches!(self, Value::U32(_)),
            DataKey::TotalRoutesAllTime | DataKey::Timelock | DataKey::PendingAdminEta
            | DataKey::PairLastRouteAt(_, _) | DataKey::PairRouteCount(_, _)
            | DataKey::PairCooldown(_, _) => matches!(self, Value::U64(_)),
            DataKey::PairFeeBps(_, _) => match self {
                Value::U32(n) => *n <= MAX_FEE_BPS,
                _ => false,
            },
            DataKey::PairMaxAmount(_, _) => match self {
                Value::I128(n) => *n > 0,
                _ => false,
            },
            DataKey::PairMinAmount(_, _) | DataKey::PairLiquidity(_, _) | DataKey::PairVolume(_, _)
            | DataKey::MaxFeeAbsolute => match self {
                Value::I128(n) => *n >= 0,
                _ => false,
            },
        }
    }
}

/// The persistent slots that an invocation sees.
pub struct Storage {
    entries: Vec<(DataKey<Symbol>, Value<Address>)>,
}

type Entries = Seq<(DataKey<Symbol>, Value<Address>)>;

/// The entry at `i` is the one of the slot `key`.
spec fn entry_for(entries: Entries, i: int, key: DataKey<Seq<char>>) -> bool {
    0 <= i < entries.len() && entries[i].0@ == key
}

/// The slots that a list of entries stands for.
spec fn slots_of(entries: Entries) -> Slots {
    Map::new(
        |key: DataKey<Seq<char>>| exists|i: int| entry_for(entries, i, key),
        |key: DataKey<Seq<char>>| entries[choose|i: int| entry_for(entries, i, key)].1@,
    )
}

/// No slot has two entries.
spec fn distinct_keys(entries: Entries) -> bool {
    forall|i: int, j: int|
        0 <= i < entries.len() && 0 <= j < entries.len() && #[trigger] entries[i].0@ == #[trigger] entries[j].0@
            ==> i == j
}

impl View for Storage {
    type V = Slots;

    closed spec fn view(&self) -> Slots {
        slots_of(self.entries@)
    }
}

/// An entry gives its slot its value.
proof fn lemma_slot(entries: Entries, i: int)
    requires
        distinct_keys(entries),
        0 <= i < entries.len(),
    ensures
        slots_of(entries).contains_key(entries[i].0@),
        slots_of(entries)[entries[i].0@] == entries[i].1@,
{
    assert(entry_for(entries, i, entries[i].0@));
}

/// Replacing the entry of a slot replaces its value.
proof fn lemma_update(entries: Entries, i: int, entry: (DataKey<Symbol>, Value<Address>))
    requires
        distinct_keys(entries),
        0 <= i < entries.len(),
        entries[i].0@ == entry.0@,
    ensures
        distinct_keys(entries.update(i, entry)),
        slots_of(entries.update(i, entry)) == slots_of(entries).insert(entry.0@, entry.1@),
{
    let after = entries.update(i, entry);
    assert forall|a: int, b: int|
        0 <= a < after.len() && 0 <= b < after.len() && #[trigger] after[a].0@ == #[trigger] after[b].0@
            implies a == b by {
        assert(entries[a].0@ == entries[b].0@);
    }
    assert forall|key: DataKey<Seq<char>>|
        slots_of(after).contains_key(key) <==> slots_of(entries).insert(entry.0@, entry.1@).contains_key(key) by {
        if slots_of(after).contains_key(key) {
            let j = choose|j: int| entry_for(after, j, key);
            assert(entry_for(entries, j, key));
        }
        if slots_of(entries).contains_key(key) {
            let j = choose|j: int| entry_for(entries, j, key);
            assert(entry_for(after, j, key));
        }
        assert(entry_for(after, i, entry.0@));
    }
    assert forall|key: DataKey<Seq<char>>| slots_of(after).contains_key(key) implies slots_of(after)[key]
        == slots_of(entries).insert(entry.0@, entry.1@)[key] by {
        let j = choose|j: int| entry_for(after, j, key);
        lemma_slot(after, j);
        lemma_slot(entries, j);
        assert(entries[j].0@ == key);
    }
    assert(slots_of(after) =~= slots_of(entries).insert(entry.0@, entry.1@));
}

/// A new entry adds its slot.
proof fn lemma_push(entries: Entries, entry: (DataKey<Symbol>, Value<Address>))
    requires
        distinct_keys(entries),
        !slots_of(entries).contains_key(entry.0@),
    ensures
        distinct_keys(entries.push(entry)),
        slots_of(entries.push(entry)) == slots_of(entries).insert(entry.0@, entry.1@),
{
    let after = entries.push(entry);
    assert forall|a: int, b: int|
        0 <= a < after.len() && 0 <= b < after.len() && #[trigger] after[a].0@ == #[trigger] after[b].0@
            implies a == b by {
        assert(a < entries.len() ==> entry_for(entries, a, after[a].0@));
        assert(b < entries.len() ==> entry_for(entries, b, after[b].0@));
    }
    assert forall|key: DataKey<Seq<char>>|
        slots_of(after).contains_key(key) <==> slots_of(entries).insert(entry.0@, entry.1@).contains_key(key) by {
        if slots_of(after).contains_key(key) {
            let j = choose|j: int| entry_for(after, j, key);
            assert(j < entries.len() ==> entry_for(entries, j, key));
        }
        if slots_of(entries).contains_key(key) {
            let j = choose|j: int| entry_for(entries, j, key);
            assert(entry_for(after, j, key));
        }
        assert(entry_for(after, entries.len() as int, entry.0@));
    }
    assert forall|key: DataKey<Seq<char>>| slots_of(after).contains_key(key) implies slots_of(after)[key]
        == slots_of(entries).insert(entry.0@, entry.1@)[key] by {
        let j = choose|j: int| entry_for(after, j, key);
        lemma_slot(after, j);
        if j < entries.len() {
            lemma_slot(entries, j);
        }
    }
    assert(slots_of(after) =~= slots_of(entries).insert(entry.0@, entry.1@));
}

/// Removing an entry empties its slot.
proof fn lemma_remove(entries: Entries, i: int)
    requires
        distinct_keys(entries),
        0 <= i < entries.len(),
    ensures
        distinct_keys(entries.remove(i)),
        slots_of(entries.remove(i)) == slots_of(entries).remove(entries[i].0@),
{
    let after = entries.remove(i);
    let gone = entries[i].0@;
    assert forall|a: int, b: int|
        0 <= a < after.len() && 0 <= b < after.len() && #[trigger] after[a].0@ == #[trigger] after[b].0@
            implies a == b by {
        let a0 = if a < i { a } else { a + 1 };
        let b0 = if b < i { b } else { b + 1 };
        assert(entries[a0].0@ == entries[b0].0@);
    }
    assert forall|key: DataKey<Seq<char>>|
        slots_of(after).contains_key(key) <==> slots_of(entries).remove(gone).contains_key(key) by {
        if slots_of(after).contains_key(key) {
            let j = choose|j: int| entry_for(after, j, key);
            let j0 = if j < i { j } else { j + 1 };
            assert(entry_for(entries, j0, key));
            assert(entries[j0].0@ != entries[i].0@);
        }
        if slots_of(entries).contains_key(key) && key != gone {
            let j = choose|j: int| entry_for(entries, j, key);
            let j1 = if j < i { j } else { j - 1 };
            assert(entry_for(after, j1, key));
        }
    }
    assert forall|key: DataKey<Seq<char>>| slots_of(after).contains_key(key) implies slots_of(after)[key]
        == slots_of(entries).remove(gone)[key] by {
        let j = choose|j: int| entry_for(after, j, key);
        let j0 = if j < i { j } else { j + 1 };
        lemma_slot(after, j);
        lemma_slot(entries, j0);
    }
    assert(slots_of(after) =~= slots_of(entries).remove(gone));
}

impl Storage {
    /// No key has two entries, and every slot holds a value that its key admits.
    pub closed spec fn wf(&self) -> bool {
        &&& distinct_keys(self.entries@)
        &&& sound(self@)
    }

    /// The slots of a well-formed storage are sound.
    pub proof fn lemma_sound(&self)
        requires
            self.wf(),
        ensures
            sound(self@),
    {
    }

    /// A storage without slots.
    pub fn new() -> (storage: Storage)
        ensures
            storage.wf(),
            storage@ == Map::<DataKey<Seq<char>>, Value<Seq<char>>>::empty(),
    {
        let storage = Storage { entries: Vec::new() };
        assert(storage@ =~= Map::empty());
        storage
    }

    fn find(&self, key: &DataKey<Symbol>) -> (index: Option<usize>)
        requires
            self.wf(),
        ensures
            match index {
                Some(i) => i < self.entries@.len() && self.entries@[i as int].0@ == key@
                    && self@.contains_key(key@) && self@[key@] == self.entries@[i as int].1@,
                None => !self@.contains_key(key@),
            },
    {
        let mut i: usize = 0;
        while i < self.entries.len()
            invariant
                i <= self.entries@.len(),
                distinct_keys(self.entries@),
                forall|j: int| 0 <= j < i ==> #[trigger] self.entries@[j].0@ != key@,
            decreases self.entries@.len() - i,
        {
            if self.entries[i].0.same(key) {
                proof {
                    lemma_slot(self.entries@, i as int);
                }
                return Some(i);
            }
            i = i + 1;
        }
        None
    }

    /// The content of a slot, if it has any.
    pub fn get(&self, key: &DataKey<Symbol>) -> (value: Option<Value<Address>>)
        requires
            self.wf(),
        ensures
            value is Some <==> self@.contains_key(key@),
            value matches Some(v) ==> v@ == self@[key@],
    {
        match self.find(key) {
            Some(i) => Some(self.entries[i].1.clone()),
            None => None,
        }
    }

    /// The content of a flag slot, if it has any.
    pub(crate) fn get_bool(&self, key: &DataKey<Symbol>) -> (value: Option<bool>)
        requires
            self.wf(),
        ensures
            value == bool_at(self@, key@),
    {
        match self.find(key) {
            Some(i) => match &self.entries[i].1 {
                Value::Bool(v) => Some(*v),
                _ => None,
            },
            None => None,
        }
    }

    /// The content of a 32-bit slot, if it has any.
    pub(crate) fn get_u32(&self, key: &DataKey<Symbol>) -> (value: Option<u32>)
        requires
            self.wf(),
        ensures
            value == u32_at(self@, key@),
    {
        match self.find(key) {
            Some(i) => match &self.entries[i].1 {
                Value::U32(v) => Some(*v),
                _ => None,
            },
            None => None,
        }
    }

    /// The content of a 64-bit slot, if it has any.
    pub(crate) fn get_u64(&self, key: &DataKey<Symbol>) -> (value: Option<u64>)
        requires
            self.wf(),
        ensures
            value == u64_at(self@, key@),
    {
        match self.find(key) {
            Some(i) => match &self.entries[i].1 {
                Value::U64(v) => Some(*v),
                _ => None,
            },
            None => None,
        }
    }

    /// The content of a amount slot, if it has any.
    pub(crate) fn get_i128(&self, key: &DataKey<Symbol>) -> (value: Option<i128>)
        requires
            self.wf(),
        ensures
            value == i128_at(self@, key@),
    {
        match self.find(key) {
            Some(i) => match &self.entries[i].1 {
                Value::I128(v) => Some(*v),
                _ => None,
            },
            None => None,
        }
    }

    /// The content of an address slot, if it has any.
    pub(crate) fn get_address(&self, key: &DataKey<Symbol>) -> (value: Option<Address>)
        requires
            self.wf(),
        ensures
            optional_address(value) == address_at(self@, key@),
    {
        match self.find(key) {
            Some(i) => match &self.entries[i].1 {
                Value::Address(a) => Some(a.clone()),
                _ => None,
            },
            None => None,
        }
    }

    /// Write a slot.
    pub(crate) fn set(&mut self, key: DataKey<Symbol>, value: Value<Address>)
        requires
            old(self).wf(),
            admits(key@, value@),
        ensures
            final(self).wf(),
            final(self)@ == old(self)@.insert(key@, value@),
    {
        match self.find(&key) {
            Some(i) => {
                proof {
                    lemma_update(self.entries@, i as int, (key, value));
                }
                self.entries.set(i, (key, value));
            },
            None => {
                proof {
                    lemma_push(self.entries@, (key, value));
                }
                self.entries.push((key, value));
            },
        }
    }

    /// Clear a slot. Clearing an empty slot changes nothing.
    pub fn remove(&mut self, key: &DataKey<Symbol>)
        requires
            old(self).wf(),
        ensures
            final(self).wf(),
            final(self)@ == old(self)@.remove(key@),
    {
        match self.find(key) {
            Some(i) => {
                proof {
                    lemma_remove(self.entries@, i as int);
                }
                self.entries.remove(i);
            },
            None => {
                assert(self@ =~= self@.remove(key@));
            },
        }
    }

    /// Take over a slot that the contract stored before. Returns `false`, and
    /// changes nothing, if the slot does not admit the value.
    pub fn restore(&mut self, key: DataKey<Symbol>, value: Value<Address>) -> (admitted: bool)
        requires
            old(self).wf(),
        ensures
            final(self).wf(),
            admitted == admits(key@, value@),
            final(self)@ == (if admitted {
                old(self)@.insert(key@, value@)
            } else {
                old(self)@
            }),
    {
        if value.fits(&key) {
            self.set(key, value);
            true
        } else {
            false
        }
    }
}

} // verus!
