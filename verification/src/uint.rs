//! Unsigned 256-bit integers, held as four 64-bit limbs.

use crate::big_endian::{be_bytes, lemma_be_bytes_concat, pow256};
use vstd::arithmetic::div_mod::lemma_fundamental_div_mod_converse;
use vstd::prelude::*;
use vstd::std_specs::cmp::PartialEqSpecImpl;

verus! {

/// The weight of one limb: 2 to the power 64.
pub open spec fn limb_base() -> nat {
    0x1_0000_0000_0000_0000
}

/// The number that four limbs spell, least significant limb first.
pub open spec fn limbs_value(limbs: Seq<u64>) -> nat {
    (limbs[0] + limb_base() * (limbs[1] + limb_base() * (limbs[2] + limb_base() * limbs[3]))) as nat
}

/// An unsigned 256-bit integer. Its view is the number itself.
#[derive(Clone, Copy, Debug, Eq)]
pub struct U256 {
    pub limbs: [u64; 4],
}

impl View for U256 {
    type V = nat;

    open spec fn view(&self) -> nat {
        limbs_value(self.limbs@)
    }
}

/// Eight bytes weigh as much as one limb.
proof fn lemma_pow256_limb()
    ensures
        pow256(8) == limb_base(),
{
    reveal_with_fuel(pow256, 9);
}

/// Every 256-bit integer is below 256 to the power 32.
pub proof fn lemma_u256_below_limit(n: U256)
    ensures
        n@ < pow256(32),
{
    reveal_with_fuel(pow256, 33);
}

/// Two 256-bit integers of the same value are the same integer.
pub proof fn lemma_u256_view_injective(a: U256, b: U256)
    requires
        a@ == b@,
    ensures
        a == b,
{
    let base = limb_base() as int;
    let a_high = a.limbs@[1] + base * (a.limbs@[2] + base * a.limbs@[3]);
    let b_high = b.limbs@[1] + base * (b.limbs@[2] + base * b.limbs@[3]);
    let a_top = a.limbs@[2] + base * a.limbs@[3];
    let b_top = b.limbs@[2] + base * b.limbs@[3];
    lemma_fundamental_div_mod_converse(a@ as int, base, a_high, a.limbs@[0] as int);
    lemma_fundamental_div_mod_converse(b@ as int, base, b_high, b.limbs@[0] as int);
    lemma_fundamental_div_mod_converse(a_high, base, a_top, a.limbs@[1] as int);
    lemma_fundamental_div_mod_converse(b_high, base, b_top, b.limbs@[1] as int);
    lemma_fundamental_div_mod_converse(a_top, base, a.limbs@[3] as int, a.limbs@[2] as int);
    lemma_fundamental_div_mod_converse(b_top, base, b.limbs@[3] as int, b.limbs@[2] as int);
    assert(a.limbs =~= b.limbs);
}

/// Dropping the lowest byte of `x >> shift` shifts by eight bits more, and
/// that lowest byte is what truncation to `u8` keeps.
proof fn lemma_next_byte(x: u64, shift: u64)
    by (bit_vector)
    requires
        shift <= 56,
    ensures
        (x >> shift) / 256 == x >> (shift + 8),
        (x >> shift) % 256 == (x >> shift) as u8,
{
}

/// The eight bytes of `x`, most significant first.
fn u64_to_be_bytes(x: u64) -> (bytes: [u8; 8])
    ensures
        bytes@ == be_bytes(x as nat, 8),
{
    let bytes = [
        (x >> 56) as u8,
        (x >> 48) as u8,
        (x >> 40) as u8,
        (x >> 32) as u8,
        (x >> 24) as u8,
        (x >> 16) as u8,
        (x >> 8) as u8,
        x as u8,
    ];
    proof {
        lemma_next_byte(x, 0);
        lemma_next_byte(x, 8);
        lemma_next_byte(x, 16);
        lemma_next_byte(x, 24);
        lemma_next_byte(x, 32);
        lemma_next_byte(x, 40);
        lemma_next_byte(x, 48);
        lemma_next_byte(x, 56);
        assert(x >> 0 == x) by (bit_vector);
        let s0 = be_bytes(((x >> 56) / 256) as nat, 0);
        let s1 = be_bytes((x >> 56) as nat, 1);
        let s2 = be_bytes((x >> 48) as nat, 2);
        let s3 = be_bytes((x >> 40) as nat, 3);
        let s4 = be_bytes((x >> 32) as nat, 4);
        let s5 = be_bytes((x >> 24) as nat, 5);
        let s6 = be_bytes((x >> 16) as nat, 6);
        let s7 = be_bytes((x >> 8) as nat, 7);
        let s8 = be_bytes(x as nat, 8);
        assert(s1 == s0.push((x >> 56) as u8));
        assert(s2 == s1.push((x >> 48) as u8));
        assert(s3 == s2.push((x >> 40) as u8));
        assert(s4 == s3.push((x >> 32) as u8));
        assert(s5 == s4.push((x >> 24) as u8));
        assert(s6 == s5.push((x >> 16) as u8));
        assert(s7 == s6.push((x >> 8) as u8));
        assert(s8 == s7.push(x as u8));
        assert(bytes@ =~= s8);
    }
    bytes
}

impl U256 {
    /// The integer with the given limbs, least significant first.
    pub fn from_limbs(limbs: [u64; 4]) -> (n: U256)
        ensures
            n.limbs == limbs,
    {
        U256 { limbs }
    }

    /// The limbs of the integer, least significant first.
    pub fn into_limbs(self) -> (limbs: [u64; 4])
        ensures
            limbs == self.limbs,
    {
        self.limbs
    }

    /// The integer equal to `x`.
    pub fn from_u64(x: u64) -> (n: U256)
        ensures
            n@ == x,
    {
        U256 { limbs: [x, 0, 0, 0] }
    }

    /// Zero.
    pub fn zero() -> (n: U256)
        ensures
            n@ == 0,
    {
        U256 { limbs: [0, 0, 0, 0] }
    }

    /// The 32 bytes of the integer, most significant first.
    pub fn to_be_bytes(&self) -> (bytes: [u8; 32])
        ensures
            bytes@ == be_bytes(self@, 32),
    {
        let b3 = u64_to_be_bytes(self.limbs[3]);
        let b2 = u64_to_be_bytes(self.limbs[2]);
        let b1 = u64_to_be_bytes(self.limbs[1]);
        let b0 = u64_to_be_bytes(self.limbs[0]);
        let mut bytes = [0u8; 32];
        let mut k: usize = 0;
        while k < 8
            invariant
                k <= 8,
                forall|j: int| 0 <= j < k ==> bytes@[j] == b3@[j],
                forall|j: int| 0 <= j < k ==> bytes@[8 + j] == b2@[j],
                forall|j: int| 0 <= j < k ==> bytes@[16 + j] == b1@[j],
                forall|j: int| 0 <= j < k ==> bytes@[24 + j] == b0@[j],
            decreases 8 - k,
        {
            bytes[k] = b3[k];
            bytes[8 + k] = b2[k];
            bytes[16 + k] = b1[k];
            bytes[24 + k] = b0[k];
            k += 1;
        }
        proof {
            let l0 = self.limbs@[0] as nat;
            let l1 = self.limbs@[1] as nat;
            let l2 = self.limbs@[2] as nat;
            let l3 = self.limbs@[3] as nat;
            lemma_pow256_limb();
            lemma_be_bytes_concat(l3, 8, l2, 8);
            lemma_be_bytes_concat(l2 + limb_base() * l3, 16, l1, 8);
            lemma_be_bytes_concat(l1 + limb_base() * (l2 + limb_base() * l3), 24, l0, 8);
            assert(l3 * limb_base() + l2 == l2 + limb_base() * l3);
            assert(bytes@ =~= b3@ + b2@ + b1@ + b0@);
        }
        bytes
    }
}

impl PartialEq for U256 {
    fn eq(&self, other: &U256) -> (same: bool) {
        let same = self.limbs[0] == other.limbs[0] && self.limbs[1] == other.limbs[1]
            && self.limbs[2] == other.limbs[2] && self.limbs[3] == other.limbs[3];
        proof {
            if same {
                assert(self.limbs@ =~= other.limbs@);
            } else if self@ == other@ {
                lemma_u256_view_injective(*self, *other);
            }
        }
        same
    }
}

impl PartialEqSpecImpl for U256 {
    open spec fn obeys_eq_spec() -> bool {
        true
    }

    open spec fn eq_spec(&self, other: &U256) -> bool {
        self@ == other@
    }
}

} // verus!
