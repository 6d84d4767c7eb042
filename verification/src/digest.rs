//! SHA-256, from the `sha2` crate.
use sha2::{Digest, Sha256};
use vstd::prelude::*;

verus! {

/// The length of a digest.
pub const SHA256_LEN: usize = 32;

/// The SHA-256 digest of some bytes.
pub uninterp spec fn sha256(data: Seq<u8>) -> Seq<u8>;

/// `Digest::digest` of `sha2::Sha256`: the digest of the bytes, which has a fixed length.
#[verifier::external_body]
pub(crate) fn digest_sha256(data: &[u8]) -> (digest: Vec<u8>)
    ensures
        digest@ == sha256(data@),
        digest@.len() == SHA256_LEN,
{
    Sha256::digest(data).to_vec()
}

} // verus!
