//! Hashing of member handles with the runtime's hasher (BLAKE2b-256).
use vstd::prelude::*;

verus! {

/// The BLAKE2b-256 digest of `data`, as the runtime's hasher computes it.
pub uninterp spec fn blake2_256_of(data: Seq<u8>) -> Seq<u8>;

/// Hashes a handle with `<sp_core::Blake2Hasher as hash_db::Hasher>::hash` (BLAKE2b-256,
/// the hash of the runtime's `BlakeTwo256`) and returns the digest's 32 bytes. Trusted: the
/// result is the named digest of exactly the input bytes, so equal handles get equal hashes;
/// nothing else about the digest (its length, that distinct handles get distinct digests)
/// is claimed.
#[verifier::external_body]
pub(crate) fn hash_handle(data: &Vec<u8>) -> (hash: Vec<u8>)
    ensures
        hash@ == blake2_256_of(data@),
{
    let hashed = <sp_core::Blake2Hasher as sp_core::Hasher>::hash(data.as_slice());
    hashed.as_ref().to_vec()
}

} // verus!
