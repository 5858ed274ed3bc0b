//! The seeded hasher that the index was built with.

use polars_utils::aliases::PlSeedableRandomStateQuality;
use std::hash::BuildHasher;
use vstd::prelude::*;

verus! {

#[verifier::external_type_specification]
#[verifier::external_body]
pub struct ExSeededHasher(PlSeedableRandomStateQuality);

/// The hash that a seeded hasher gives to a byte string.
pub uninterp spec fn seeded_hash(hb: PlSeedableRandomStateQuality, bytes: Seq<u8>) -> u64;

/// `BuildHasher::hash_one` of the seeded hasher, on the bytes of one encoded
/// key. The claim is that the hash depends on the hasher and the bytes alone;
/// nothing is claimed of its value.
#[verifier::external_body]
pub(crate) fn hash_key(hb: &PlSeedableRandomStateQuality, bytes: &Vec<u8>) -> (hash: u64)
    ensures
        hash == seeded_hash(*hb, bytes@),
{
    hb.hash_one(bytes.as_slice())
}

} // verus!
