//! The digest under which a proposal's text is stored.

use crate::types::DescriptionHash;
use frame_support::sp_runtime::traits::BlakeTwo256;
use vstd::prelude::*;

verus! {

/// The Blake2b digest of 256 bits of `data`.
pub uninterp spec fn blake2_256(data: Seq<u8>) -> Seq<u8>;

/// `Hash::hash` of `BlakeTwo256`, the hasher of `sp_runtime`: the Blake2b-256
/// digest of `data`, which depends on `data` alone.
#[verifier::external_body]
pub(crate) fn hash_description(data: &Vec<u8>) -> (digest: DescriptionHash)
    ensures
        digest@ == blake2_256(data@),
{
    <BlakeTwo256 as frame_support::sp_runtime::traits::Hash>::hash(data).0
}

} // verus!
