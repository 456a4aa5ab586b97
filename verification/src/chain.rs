//! The record hash-chain: each record digest binds the verified-fields
//! digest, the predecessor's record digest, and a writer-chosen commit
//! identifier. Tampering with any earlier record changes every later digest.

use vstd::prelude::*;

use crate::bytes::append_bytes;
use crate::bytes::lemma_concat_fixed_split;
use crate::digest::blake3_hash32;
use crate::digest::blake3_of;

verus! {

/// The chained record digest: BLAKE3 over
/// `verified_fields_digest || prev_record_digest || commit_id`.
pub open spec fn record_digest_of(
    verified_fields_digest: Seq<u8>,
    prev_record_digest: Seq<u8>,
    commit_id: Seq<u8>,
) -> Seq<u8> {
    blake3_of(verified_fields_digest + prev_record_digest + commit_id)
}

/// Computes the chained record digest for one record.
pub fn record_digest_from_components(
    verified_fields_digest: [u8; 32],
    prev_record_digest: [u8; 32],
    commit_id: &[u8],
) -> (r: [u8; 32])
    ensures
        r@ == record_digest_of(verified_fields_digest@, prev_record_digest@, commit_id@),
{
    let mut preimage: Vec<u8> = Vec::new();
    append_bytes(&mut preimage, verified_fields_digest.as_slice());
    append_bytes(&mut preimage, prev_record_digest.as_slice());
    append_bytes(&mut preimage, commit_id);
    proof {
        assert(preimage@ =~= verified_fields_digest@ + prev_record_digest@ + commit_id@);
    }
    blake3_hash32(preimage.as_slice())
}

/// The predecessor digest of a chain's first record: the all-zero 32-byte
/// digest, carried explicitly on the wire. Absence and the zero digest are
/// never confused.
pub fn genesis_prev_digest() -> (r: [u8; 32])
    ensures
        r@.len() == 32,
        forall|i: int| 0 <= i < 32 ==> r@[i] == 0u8,
{
    [0u8; 32]
}

/// Chain sensitivity: two records that differ in their verified-fields
/// digest, their predecessor digest, or their commit identifier have
/// different chain preimages, so their record digests differ whenever BLAKE3
/// is collision-free on the two preimages.
pub proof fn lemma_chain_preimage_injective(
    v1: Seq<u8>,
    p1: Seq<u8>,
    c1: Seq<u8>,
    v2: Seq<u8>,
    p2: Seq<u8>,
    c2: Seq<u8>,
)
    requires
        v1.len() == 32,
        p1.len() == 32,
        v2.len() == 32,
        p2.len() == 32,
        v1 + p1 + c1 == v2 + p2 + c2,
    ensures
        v1 == v2,
        p1 == p2,
        c1 == c2,
{
    assert(v1 + p1 + c1 =~= v1 + (p1 + c1));
    assert(v2 + p2 + c2 =~= v2 + (p2 + c2));
    lemma_concat_fixed_split(v1, p1 + c1, v2, p2 + c2);
    lemma_concat_fixed_split(p1, c1, p2, c2);
}

} // verus!
