//! Persistent storage: one slot that holds an address.

use crate::address::Address;
use vstd::prelude::*;

verus! {

/// A storage slot for one address. Its view is the address it holds.
#[derive(Debug)]
pub struct StorageAddress {
    value: Address,
}

impl View for StorageAddress {
    type V = Seq<u8>;

    closed spec fn view(&self) -> Seq<u8> {
        self.value@
    }
}

impl StorageAddress {
    /// A slot that was never written: it holds the zero address.
    pub fn new() -> (slot: StorageAddress)
        ensures
            slot@ == Seq::new(20, |i: int| 0u8),
    {
        StorageAddress { value: Address::zero() }
    }

    /// A slot that holds `value`.
    pub fn holding(value: Address) -> (slot: StorageAddress)
        ensures
            slot@ == value@,
    {
        StorageAddress { value }
    }

    /// The address in the slot.
    pub fn get(&self) -> (value: Address)
        ensures
            value@ == self@,
    {
        self.value
    }

    /// Overwrites the slot with `value`.
    pub fn set(&mut self, value: Address)
        ensures
            final(self)@ == value@,
    {
        self.value = value;
    }
}

} // verus!
