//! Content-addressed digests: a 32-byte BLAKE3 digest over
//! `domain || schema_id || schema_version || bytes`, and the registry of
//! domain strings that keep digests of different record families apart.

use vstd::prelude::*;
use vstd::string::*;

use crate::bytes::append_bytes;

verus! {

/// The 32-byte digest that `blake3::hash` computes for the given input.
/// The result depends on the input bytes alone.
pub uninterp spec fn blake3_of(input: Seq<u8>) -> Seq<u8>;

/// Relies on `blake3::hash` (blake3 crate): a pure function of its input
/// that returns a 32-byte digest.
#[verifier::external_body]
pub(crate) fn blake3_hash32(input: &[u8]) -> (r: [u8; 32])
    ensures
        r@ == blake3_of(input@),
{
    *blake3::hash(input).as_bytes()
}

/// The digest preimage: raw concatenation, with no length prefixes. The
/// domain registry keeps the concatenation unambiguous: no registered domain
/// is a prefix of another with the same schema, version and bytes behind it.
pub open spec fn digest32_of(
    domain: Seq<u8>,
    schema_id: Seq<u8>,
    schema_version: Seq<u8>,
    bytes: Seq<u8>,
) -> Seq<u8> {
    blake3_of(domain + schema_id + schema_version + bytes)
}

/// Computes the 32-byte digest of `bytes` bound to the domain triple
/// `(domain, schema_id, schema_version)`.
pub fn digest32(domain: &str, schema_id: &str, schema_version: &str, bytes: &[u8]) -> (r: [u8;
    32])
    ensures
        r@ == digest32_of(
            domain.spec_bytes(),
            schema_id.spec_bytes(),
            schema_version.spec_bytes(),
            bytes@,
        ),
{
    let mut preimage: Vec<u8> = Vec::new();
    append_bytes(&mut preimage, domain.as_bytes());
    append_bytes(&mut preimage, schema_id.as_bytes());
    append_bytes(&mut preimage, schema_version.as_bytes());
    append_bytes(&mut preimage, bytes);
    proof {
        assert(preimage@ =~= domain.spec_bytes() + schema_id.spec_bytes()
            + schema_version.spec_bytes() + bytes@);
    }
    blake3_hash32(preimage.as_slice())
}

/// Distinct domains give distinct digest preimages when the schema, version
/// and record bytes behind them are the same. The digests themselves then
/// differ whenever BLAKE3 is collision-free on the two preimages; the
/// preimage inequality is what the concatenation itself guarantees.
pub proof fn lemma_domain_separation(
    d1: Seq<u8>,
    d2: Seq<u8>,
    schema_id: Seq<u8>,
    schema_version: Seq<u8>,
    bytes: Seq<u8>,
)
    requires
        d1 != d2,
    ensures
        d1 + schema_id + schema_version + bytes != d2 + schema_id + schema_version + bytes,
{
    let p1 = d1 + schema_id + schema_version + bytes;
    let p2 = d2 + schema_id + schema_version + bytes;
    if p1 == p2 {
        assert(p1.len() == d1.len() + schema_id.len() + schema_version.len() + bytes.len());
        assert(p2.len() == d2.len() + schema_id.len() + schema_version.len() + bytes.len());
        assert(d1.len() == d2.len());
        assert forall|i: int| 0 <= i < d1.len() implies d1[i] == d2[i] by {
            assert(p1[i] == d1[i]);
            assert(p2[i] == d2[i]);
        }
        assert(d1 =~= d2);
    }
}

/// The two asset domains that scenario digests are computed under are no
/// prefix of one another, so the same bytes under the morphology domain and
/// under the manifest domain never share a digest preimage.
pub proof fn lemma_asset_domains_separated(
    schema_id: Seq<u8>,
    schema_version: Seq<u8>,
    bytes: Seq<u8>,
)
    ensures
        "UCF:ASSET:MORPH".spec_bytes() + schema_id + schema_version + bytes
            != "UCF:ASSET:MANIFEST".spec_bytes() + schema_id + schema_version + bytes,
{
    let d1 = "UCF:ASSET:MORPH";
    let d2 = "UCF:ASSET:MANIFEST";
    reveal_strlit("UCF:ASSET:MORPH");
    reveal_strlit("UCF:ASSET:MANIFEST");
    assert(d1@.len() == 15);
    assert(d2@.len() == 18);
    assert(vstd::utf8::is_ascii_chars(d1@));
    assert(vstd::utf8::is_ascii_chars(d2@));
    vstd::utf8::is_ascii_chars_encode_utf8(d1@);
    vstd::utf8::is_ascii_chars_encode_utf8(d2@);
    assert(d1.spec_bytes().len() == 15);
    assert(d2.spec_bytes().len() == 18);
    lemma_domain_separation(d1.spec_bytes(), d2.spec_bytes(), schema_id, schema_version, bytes);
}

/// The domain for core UCF records.
pub fn domain_core() -> (r: &'static str)
    ensures
        r@ == "ucf-core"@,
{
    "ucf-core"
}

/// The domain for microcircuit configuration evidence.
pub fn domain_mc_config() -> (r: &'static str)
    ensures
        r@ == "UCF:HASH:MC_CONFIG"@,
{
    "UCF:HASH:MC_CONFIG"
}

/// The domain for morphology asset digests.
pub fn domain_asset_morph() -> (r: &'static str)
    ensures
        r@ == "UCF:ASSET:MORPH"@,
{
    "UCF:ASSET:MORPH"
}

/// The domain for channel-parameter asset digests.
pub fn domain_asset_channel_params() -> (r: &'static str)
    ensures
        r@ == "UCF:ASSET:CHANNEL_PARAMS"@,
{
    "UCF:ASSET:CHANNEL_PARAMS"
}

/// The domain for synapse-parameter asset digests.
pub fn domain_asset_syn_params() -> (r: &'static str)
    ensures
        r@ == "UCF:ASSET:SYN_PARAMS"@,
{
    "UCF:ASSET:SYN_PARAMS"
}

/// The domain for connectivity-graph asset digests.
pub fn domain_asset_connectivity() -> (r: &'static str)
    ensures
        r@ == "UCF:ASSET:CONNECTIVITY"@,
{
    "UCF:ASSET:CONNECTIVITY"
}

/// The domain for asset manifests.
pub fn domain_asset_manifest() -> (r: &'static str)
    ensures
        r@ == "UCF:ASSET:MANIFEST"@,
{
    "UCF:ASSET:MANIFEST"
}

} // verus!
