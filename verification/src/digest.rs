//! The 256-bit hash that names blocks and transactions.

use vstd::prelude::*;

verus! {

/// The BLAKE2b digest of `data` with a 32-byte output.
pub uninterp spec fn blake2b_256(data: Seq<u8>) -> Seq<u8>;

/// Hashes `data` with `blake2::Blake2b<U32>` through `Digest::digest`.
///
/// Trusted: the result is the 32-byte BLAKE2b digest of exactly these bytes,
/// a function of the input alone.
#[verifier::external_body]
pub(crate) fn hash32(data: &[u8]) -> (out: [u8; 32])
    ensures
        out@ == blake2b_256(data@),
{
    <blake2::Blake2b<blake2::digest::consts::U32> as blake2::Digest>::digest(data).into()
}

} // verus!
