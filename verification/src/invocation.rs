//! One invocation of the contract.

use vstd::prelude::*;
use crate::event::Event;
use crate::ident::Address;
use crate::ident::Symbol;
use crate::storage::admits;
use crate::storage::DataKey;
use crate::storage::Slots;
use crate::storage::Storage;
use crate::storage::Value;

verus! {

/// What an [`Invocation`] stands for.
#[verifier::ext_equal]
pub struct InvocationView {
    pub timestamp: u64,
    pub signers: Seq<Seq<char>>,
    pub slots: Slots,
    pub events: Seq<Event<Seq<char>, Seq<char>>>,
}

impl InvocationView {
    /// The same invocation with the slot `key` holding `value`.
    pub open spec fn put(self, key: DataKey<Seq<char>>, value: Value<Seq<char>>) -> InvocationView {
        InvocationView { slots: self.slots.insert(key, value), ..self }
    }

    /// The same invocation with the slot `key` empty.
    pub open spec fn clear(self, key: DataKey<Seq<char>>) -> InvocationView {
        InvocationView { slots: self.slots.remove(key), ..self }
    }

    /// The same invocation with one more event.
    pub open spec fn emit(self, event: Event<Seq<char>, Seq<char>>) -> InvocationView {
        InvocationView { events: self.events.push(event), ..self }
    }
}

/// One invocation of the contract: the ledger time it runs at, the addresses
/// that signed it, the persistent slots and the events published so far.
pub struct Invocation {
    pub timestamp: u64,
    pub signers: Vec<Address>,
    pub storage: Storage,
    pub events: Vec<Event<Symbol, Address>>,
}

impl View for Invocation {
    type V = InvocationView;

    open spec fn view(&self) -> InvocationView {
        InvocationView {
            timestamp: self.timestamp,
            signers: self.signers@.map_values(|a: Address| a@),
            slots: self.storage@,
            events: self.events@.map_values(|e: Event<Symbol, Address>| e@),
        }
    }
}

impl Invocation {
    /// The storage is well-formed.
    pub open spec fn wf(&self) -> bool {
        self.storage.wf()
    }

    /// An invocation at `timestamp`, signed by nobody, that sees `storage`.
    pub fn new(timestamp: u64, storage: Storage) -> (invocation: Invocation)
        requires
            storage.wf(),
        ensures
            invocation.wf(),
            invocation@ == (InvocationView {
                timestamp,
                signers: Seq::empty(),
                slots: storage@,
                events: Seq::empty(),
            }),
    {
        Invocation { timestamp, signers: Vec::new(), storage, events: Vec::new() }
    }

    /// Whether `address` signed the invocation.
    pub fn signed_by(&self, address: &Address) -> (signed: bool)
        ensures
            signed == self@.signers.contains(address@),
    {
        let mut i: usize = 0;
        while i < self.signers.len()
            invariant
                i <= self.signers@.len(),
                forall|j: int| 0 <= j < i ==> self@.signers[j] != address@,
            decreases self.signers@.len() - i,
        {
            if self.signers[i].same(address) {
                assert(self@.signers[i as int] == address@);
                return true;
            }
            i = i + 1;
        }
        false
    }

    /// Write a slot.
    pub(crate) fn put(&mut self, key: DataKey<Symbol>, value: Value<Address>)
        requires
            old(self).wf(),
            admits(key@, value@),
        ensures
            final(self).wf(),
            final(self)@ == old(self)@.put(key@, value@),
    {
        self.storage.set(key, value);
    }

    /// Clear a slot.
    pub(crate) fn clear(&mut self, key: DataKey<Symbol>)
        requires
            old(self).wf(),
        ensures
            final(self).wf(),
            final(self)@ == old(self)@.clear(key@),
    {
        self.storage.remove(&key);
    }

    /// Publish an event.
    pub(crate) fn emit(&mut self, event: Event<Symbol, Address>)
        requires
            old(self).wf(),
        ensures
            final(self).wf(),
            final(self)@ == old(self)@.emit(event@),
    {
        self.events.push(event);
        assert(self@.events =~= old(self)@.events.push(event@));
    }
}

} // verus!
