//! Account identifiers: fixed-width addresses of 20 bytes.

use vstd::prelude::*;
use vstd::std_specs::cmp::PartialEqSpecImpl;

verus! {

/// An account identifier. Its view is the sequence of its 20 bytes.
#[derive(Clone, Copy, Debug, Eq)]
pub struct Address {
    pub bytes: [u8; 20],
}

impl View for Address {
    type V = Seq<u8>;

    open spec fn view(&self) -> Seq<u8> {
        self.bytes@
    }
}

/// The 32-byte word that holds `addr` in its low 20 bytes and zero above.
pub open spec fn left_padded(addr: Seq<u8>) -> Seq<u8> {
    Seq::new(12, |i: int| 0u8) + addr
}

impl Address {
    /// The address made of the given bytes.
    pub fn new(bytes: [u8; 20]) -> (addr: Address)
        ensures
            addr.bytes == bytes,
    {
        Address { bytes }
    }

    /// The zero address, which an unset slot holds.
    pub fn zero() -> (addr: Address)
        ensures
            addr@ == Seq::new(20, |i: int| 0u8),
    {
        let addr = Address { bytes: [0u8; 20] };
        assert(addr@ =~= Seq::new(20, |i: int| 0u8));
        addr
    }

    /// The bytes of the address.
    pub fn into_array(self) -> (bytes: [u8; 20])
        ensures
            bytes == self.bytes,
    {
        self.bytes
    }

    /// The address as one 32-byte word, padded with zero bytes on the left.
    pub fn into_word(self) -> (word: [u8; 32])
        ensures
            word@ == left_padded(self@),
    {
        let mut word = [0u8; 32];
        let mut i: usize = 0;
        while i < 20
            invariant
                i <= 20,
                forall|k: int| 0 <= k < 12 ==> word@[k] == 0u8,
                forall|k: int| 0 <= k < i ==> word@[12 + k] == self.bytes@[k],
            decreases 20 - i,
        {
            word[12 + i] = self.bytes[i];
            i += 1;
        }
        assert(word@ =~= left_padded(self@));
        word
    }
}

/// Two addresses with the same bytes are the same address.
pub proof fn lemma_address_view_injective(a: Address, b: Address)
    requires
        a@ == b@,
    ensures
        a == b,
{
    assert(a.bytes =~= b.bytes);
}

impl PartialEq for Address {
    fn eq(&self, other: &Address) -> (same: bool) {
        let mut i: usize = 0;
        while i < 20
            invariant
                i <= 20,
                forall|k: int| 0 <= k < i ==> self.bytes@[k] == other.bytes@[k],
            decreases 20 - i,
        {
            if self.bytes[i] != other.bytes[i] {
                return false;
            }
            i += 1;
        }
        assert(self.bytes@ =~= other.bytes@);
        true
    }
}

impl PartialEqSpecImpl for Address {
    open spec fn obeys_eq_spec() -> bool {
        true
    }

    open spec fn eq_spec(&self, other: &Address) -> bool {
        self@ == other@
    }
}

} // verus!
