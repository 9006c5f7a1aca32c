//! SHA-256 as computed by the `sha2` crate, used by the host for every
//! commitment and accumulator hash.
use vstd::prelude::*;
use sha2::Digest;

verus! {

/// The SHA-256 digest that `sha2` computes for a byte string.
pub uninterp spec fn sha2_sha256(data: Seq<u8>) -> Seq<u8>;

/// The host's SHA-256 (that of `sha2`), as a function on byte strings.
pub open spec fn host_sha256() -> spec_fn(Seq<u8>) -> Seq<u8> {
    |m: Seq<u8>| sha2_sha256(m)
}

/// Calls `sha2::Sha256::digest`. The contract claims only that the 32 bytes
/// returned are the digest of the whole input, named `sha2_sha256`; streaming
/// the same bytes through `update` gives the same digest, as `sha2`
/// documents, so callers concatenate first and hash once.
#[verifier::external_body]
pub(crate) fn sha256(data: &[u8]) -> (d: [u8; 32])
    ensures
        d@ == sha2_sha256(data@),
{
    sha2::Sha256::digest(data).into()
}

} // verus!
