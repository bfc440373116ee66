//! Big-endian byte strings as numbers.

use vstd::arithmetic::div_mod::{lemma_div_denominator, lemma_mod_breakdown};
use vstd::prelude::*;

verus! {

/// 256 to the power `n`.
pub open spec fn pow256(n: nat) -> nat
    decreases n,
{
    if n == 0 {
        1
    } else {
        256 * pow256((n - 1) as nat)
    }
}

/// The number that `bytes` spell, most significant byte first.
pub open spec fn be_value(bytes: Seq<u8>) -> nat
    decreases bytes.len(),
{
    if bytes.len() == 0 {
        0
    } else {
        256 * be_value(bytes.drop_last()) + bytes.last() as nat
    }
}

/// The `len` lowest base-256 digits of `value`, most significant first.
pub open spec fn be_bytes(value: nat, len: nat) -> Seq<u8>
    decreases len,
{
    if len == 0 {
        Seq::empty()
    } else {
        be_bytes(value / 256, (len - 1) as nat).push((value % 256) as u8)
    }
}

/// `be_bytes(value, len)` has `len` bytes.
pub proof fn lemma_be_bytes_len(value: nat, len: nat)
    ensures
        be_bytes(value, len).len() == len,
    decreases len,
{
    if len > 0 {
        lemma_be_bytes_len(value / 256, (len - 1) as nat);
    }
}

/// `pow256` is positive.
pub proof fn lemma_pow256_positive(n: nat)
    ensures
        pow256(n) > 0,
    decreases n,
{
    if n > 0 {
        lemma_pow256_positive((n - 1) as nat);
    }
}

/// The byte at place `i` of `be_bytes(value, len)` is the base-256 digit of
/// `value` that weighs 256 to the power `len - 1 - i`.
pub proof fn lemma_be_bytes_digit(value: nat, len: nat, i: int)
    requires
        0 <= i < len,
    ensures
        be_bytes(value, len).len() == len,
        be_bytes(value, len)[i] == (value / pow256((len - 1 - i) as nat)) % 256,
    decreases len,
{
    let rest = (len - 1) as nat;
    lemma_be_bytes_len(value, len);
    lemma_be_bytes_len(value / 256, rest);
    if i == len - 1 {
        assert(pow256((len - 1 - i) as nat) == 1);
        assert(be_bytes(value, len)[i] == (value % 256) as u8);
    } else {
        let place = (rest - 1 - i) as nat;
        lemma_be_bytes_digit(value / 256, rest, i);
        lemma_pow256_positive(place);
        lemma_div_denominator(value as int, 256, pow256(place) as int);
        assert(pow256((len - 1 - i) as nat) == 256 * pow256(place));
        assert(be_bytes(value, len)[i] == be_bytes(value / 256, rest)[i]);
        assert((value / 256) / pow256(place) == value / (256 * pow256(place)));
        assert(value / (256 * pow256(place)) == value / pow256((len - 1 - i) as nat));
    }
}

/// A number written as a high part above `low_len` low digits is spelled by
/// the digits of the high part followed by those of the low part.
pub proof fn lemma_be_bytes_concat(high: nat, high_len: nat, low: nat, low_len: nat)
    requires
        low < pow256(low_len),
    ensures
        be_bytes(high * pow256(low_len) + low, high_len + low_len) == be_bytes(high, high_len)
            + be_bytes(low, low_len),
    decreases low_len,
{
    if low_len == 0 {
        assert(be_bytes(low, 0) =~= Seq::<u8>::empty());
        assert(be_bytes(high, high_len) + Seq::<u8>::empty() =~= be_bytes(high, high_len));
        assert(high * pow256(0) + low == high);
    } else {
        let rest = (low_len - 1) as nat;
        let whole = high * pow256(low_len) + low;
        let p = pow256(rest);
        assert(pow256(low_len) == 256 * p);
        assert(high * (256 * p) == 256 * (high * p)) by (nonlinear_arith);
        assert(whole == 256 * (high * p) + low);
        assert(whole / 256 == high * p + low / 256);
        assert(whole % 256 == low % 256);
        assert(low / 256 < p);
        lemma_be_bytes_concat(high, high_len, low / 256, rest);
        assert(be_bytes(whole, high_len + low_len) == be_bytes(whole / 256, high_len + rest).push(
            (whole % 256) as u8,
        ));
        assert(be_bytes(whole, high_len + low_len) =~= be_bytes(high, high_len) + be_bytes(
            low,
            low_len,
        ));
    }
}

/// Decoding what was encoded gives the number back, up to the digits kept.
pub proof fn lemma_be_value_of_be_bytes(value: nat, len: nat)
    ensures
        be_value(be_bytes(value, len)) == value % pow256(len),
    decreases len,
{
    if len == 0 {
        assert(be_bytes(value, 0).len() == 0);
    } else {
        let rest = (len - 1) as nat;
        let p = pow256(rest);
        let bytes = be_bytes(value, len);
        lemma_be_value_of_be_bytes(value / 256, rest);
        lemma_pow256_positive(rest);
        assert(bytes.drop_last() =~= be_bytes(value / 256, rest));
        assert(bytes.last() == (value % 256) as u8);
        assert(be_value(bytes) == 256 * ((value / 256) % p) + value % 256);
        lemma_mod_breakdown(value as int, 256, p as int);
    }
}

} // verus!
