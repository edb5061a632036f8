//! Keccak-256, the one hash every derivation is built on.

use tiny_keccak::{Hasher, Keccak};
use vstd::prelude::*;

verus! {

/// The Keccak-256 digest of `data`, as a function of the input bytes alone.
pub uninterp spec fn keccak256_digest(data: Seq<u8>) -> Seq<u8>;

/// Hashes `data` with `tiny_keccak::Keccak::v256`: one `update` with the whole
/// input, then `finalize` into a 32-byte buffer.
///
/// Trusted: the returned bytes are the digest of exactly the bytes passed in,
/// which the contract names `keccak256_digest(data@)`.
#[verifier::external_body]
pub(crate) fn keccak256(data: &[u8]) -> (output: [u8; 32])
    ensures
        output@ == keccak256_digest(data@),
{
    let mut hasher = Keccak::v256();
    let mut output = [0u8; 32];
    hasher.update(data);
    hasher.finalize(&mut output);
    output
}

} // verus!
