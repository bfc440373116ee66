//! The Keccak-256 digest.

use vstd::prelude::*;

verus! {

/// The Keccak-256 digest of `preimage`: 32 bytes that depend on the
/// preimage alone.
pub uninterp spec fn keccak256(preimage: Seq<u8>) -> Seq<u8>;

/// Calls `stylus_sdk::crypto::keccak`, which hashes the bytes it is given
/// with Keccak-256 and returns the digest as a 32-byte value. Trusted: the
/// digest is the one that `keccak256` names for these bytes.
#[verifier::external_body]
pub(crate) fn keccak(preimage: &[u8]) -> (digest: [u8; 32])
    ensures
        digest@ == keccak256(preimage@),
{
    stylus_sdk::crypto::keccak(preimage).0
}

} // verus!
