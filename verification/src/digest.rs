//! SHA-256 digests of transferred data.

use vstd::prelude::*;
use sha2::{Digest, Sha256};

verus! {

/// The SHA-256 digest of a byte sequence, as the `sha2` crate computes it.
pub uninterp spec fn sha256(data: Seq<u8>) -> Seq<u8>;

/// Computes the SHA-256 digest of `data`.
///
/// Trusted: calls `sha2::Sha256::digest`; the digest is a function of the
/// bytes alone, named `sha256`.
#[verifier::external_body]
pub(crate) fn sha256_digest(data: &[u8]) -> (r: [u8; 32])
    ensures
        r@ == sha256(data@),
{
    Sha256::digest(data).into()
}

/// Hash of one chunk of a transfer.
pub fn calculate_chunk_hash(data: &[u8]) -> (h: [u8; 32])
    ensures
        h@ == sha256(data@),
{
    sha256_digest(data)
}

} // verus!
