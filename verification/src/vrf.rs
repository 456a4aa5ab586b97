//! The placeholder VRF engine: a deterministic 32-byte tag per record,
//! bound to the record chain and an epoch key. The tag is the BLAKE3 digest
//! of the SHA-512 digest of a deterministic Ed25519 signature over the
//! domain-separated preimage. The construction is labelled temporary and can
//! be replaced by a standards VRF that keeps the same preimage and tag
//! length.

use vstd::prelude::*;
use vstd::string::*;

use crate::bytes::append_bytes;
use crate::bytes::le64;
use crate::bytes::lemma_concat_fixed_split;
use crate::bytes::lemma_le64_injective;
use crate::bytes::push_le64;
use crate::digest::blake3_hash32;
use crate::digest::blake3_of;
use crate::hexfmt::hex_encode;
use crate::hexfmt::spec_hex_encode;

verus! {

/// The 64-byte digest that `sha2::Sha512` computes for the given input.
/// The result depends on the input bytes alone.
pub uninterp spec fn sha512_of(input: Seq<u8>) -> Seq<u8>;

/// The 64-byte deterministic Ed25519 signature over `message` under the
/// signing key derived from the 32-byte `seed`. RFC 8032 signing is
/// deterministic, so the result depends on seed and message alone.
pub uninterp spec fn ed25519_sig_of(seed: Seq<u8>, message: Seq<u8>) -> Seq<u8>;

/// The 32-byte Ed25519 public key derived from the 32-byte `seed`.
pub uninterp spec fn ed25519_pk_of(seed: Seq<u8>) -> Seq<u8>;

/// Relies on `sha2::Sha512::digest` (sha2 crate): a pure function of the
/// input returning a 64-byte digest.
#[verifier::external_body]
fn sha512_digest(input: &[u8]) -> (r: Vec<u8>)
    ensures
        r@ == sha512_of(input@),
        r@.len() == 64,
{
    let d = <sha2::Sha512 as sha2::Digest>::digest(input);
    d.as_slice().to_vec()
}

/// Relies on `ed25519_dalek::SigningKey::from_bytes` and
/// `ed25519_dalek::Signer::sign` (ed25519-dalek crate): deterministic
/// RFC 8032 signing, a pure function of the seed and the message, returning
/// 64 signature bytes.
#[verifier::external_body]
fn ed25519_sign(seed: &[u8], message: &[u8]) -> (r: Vec<u8>)
    requires
        seed@.len() == 32,
    ensures
        r@ == ed25519_sig_of(seed@, message@),
        r@.len() == 64,
{
    let mut seed_bytes = [0u8; 32];
    seed_bytes.copy_from_slice(seed);
    let sk = ed25519_dalek::SigningKey::from_bytes(&seed_bytes);
    ed25519_dalek::Signer::sign(&sk, message).to_bytes().to_vec()
}

/// Relies on `ed25519_dalek::SigningKey::verifying_key` (ed25519-dalek
/// crate): the 32-byte public key is derived from the seed alone.
#[verifier::external_body]
fn ed25519_public_key(seed: &[u8]) -> (r: Vec<u8>)
    requires
        seed@.len() == 32,
    ensures
        r@ == ed25519_pk_of(seed@),
        r@.len() == 32,
{
    let mut seed_bytes = [0u8; 32];
    seed_bytes.copy_from_slice(seed);
    let sk = ed25519_dalek::SigningKey::from_bytes(&seed_bytes);
    sk.verifying_key().to_bytes().to_vec()
}

/// The domain prefix of every VRF preimage.
pub open spec fn vrf_domain_bytes() -> Seq<u8> {
    "UCF:VRF:EXPERIENCE_RECORD".spec_bytes()
}

/// The preimage hashed into the dev-mode key seed for an epoch.
pub open spec fn dev_seed_preimage(epoch_id: u64) -> Seq<u8> {
    "UCF:VRF:DEV".spec_bytes() + le64(epoch_id)
}

/// The VRF preimage: raw concatenation of the domain, both chain digests,
/// the charter digest bytes, the profile digest, and the little-endian
/// epoch.
pub open spec fn vrf_preimage(
    prev_record_digest: Seq<u8>,
    record_digest: Seq<u8>,
    charter_digest: Seq<u8>,
    profile_digest: Seq<u8>,
    epoch_id: u64,
) -> Seq<u8> {
    vrf_domain_bytes() + prev_record_digest + record_digest + charter_digest + profile_digest
        + le64(epoch_id)
}

/// The placeholder VRF tag: BLAKE3 of SHA-512 of the deterministic Ed25519
/// signature over the preimage.
pub open spec fn vrf_tag_of(
    seed: Seq<u8>,
    prev_record_digest: Seq<u8>,
    record_digest: Seq<u8>,
    charter_digest: Seq<u8>,
    profile_digest: Seq<u8>,
    epoch_id: u64,
) -> Seq<u8> {
    blake3_of(
        sha512_of(
            ed25519_sig_of(
                seed,
                vrf_preimage(
                    prev_record_digest,
                    record_digest,
                    charter_digest,
                    profile_digest,
                    epoch_id,
                ),
            ),
        ),
    )
}

/// The key identifier of a placeholder engine: a fixed label and the hex of
/// the first eight public-key bytes.
pub open spec fn key_id_of(vrf_pk: Seq<u8>) -> Seq<char> {
    "TEMPORARY_VRF:"@ + spec_hex_encode(vrf_pk.take(8))
}

/// Key material for the VRF engine.
#[derive(Clone, Debug)]
pub struct VrfKeypair {
    pub key_id: String,
    pub epoch_id: u64,
    pub vrf_pk: Vec<u8>,
    pub vrf_sk: Vec<u8>,
}

/// VRF engine that evaluates tags for experience records under one epoch
/// key. The secret key bytes double as the Ed25519 seed.
#[derive(Clone)]
pub struct VrfEngine {
    pub current: VrfKeypair,
}

impl VrfEngine {
    /// The engine holds a 32-byte signing seed.
    pub open spec fn wf(&self) -> bool {
        self.current.vrf_sk@.len() == 32
    }

    /// Creates a deterministic dev/test keypair for the provided epoch: the
    /// seed is the BLAKE3 digest of the dev domain and the little-endian
    /// epoch, the public key is derived from the seed, and the key id names
    /// the first eight public-key bytes.
    pub fn new_dev(epoch_id: u64) -> (r: Self)
        ensures
            r.wf(),
            r.current.epoch_id == epoch_id,
            r.current.vrf_sk@ == blake3_of(dev_seed_preimage(epoch_id)),
            r.current.vrf_pk@ == ed25519_pk_of(r.current.vrf_sk@),
            r.current.vrf_pk@.len() == 32,
            r.current.key_id@ == key_id_of(r.current.vrf_pk@),
    {
        let mut seed_pre: Vec<u8> = Vec::new();
        append_bytes(&mut seed_pre, "UCF:VRF:DEV".as_bytes());
        push_le64(&mut seed_pre, epoch_id);
        proof {
            assert(seed_pre@ =~= dev_seed_preimage(epoch_id));
        }
        let seed: [u8; 32] = blake3_hash32(seed_pre.as_slice());
        let vrf_sk = vstd::slice::slice_to_vec(seed.as_slice());
        let vrf_pk = ed25519_public_key(vrf_sk.as_slice());
        let pk8 = vstd::slice::slice_subrange(vrf_pk.as_slice(), 0, 8);
        let hex16 = hex_encode(pk8);
        let mut key_id = String::from_str("TEMPORARY_VRF:");
        key_id.append(hex16.as_str());
        proof {
            assert(vrf_pk@.subrange(0, 8) =~= vrf_pk@.take(8));
            assert(key_id@ =~= key_id_of(vrf_pk@));
        }
        VrfEngine { current: VrfKeypair { key_id, epoch_id, vrf_pk, vrf_sk } }
    }

    /// The epoch the engine's key was issued for.
    pub fn current_epoch(&self) -> (r: u64)
        ensures
            r == self.current.epoch_id,
    {
        self.current.epoch_id
    }

    /// The engine's VRF public key bytes.
    pub fn vrf_public_key(&self) -> (r: &[u8])
        ensures
            r@ == self.current.vrf_pk@,
    {
        self.current.vrf_pk.as_slice()
    }

    /// Evaluates the VRF tag for an experience record commitment. Two calls
    /// with the same inputs on the same engine return the same tag, because
    /// the tag is the pure function `vrf_tag_of` of the key seed and the
    /// inputs.
    pub fn eval_record_vrf(
        &self,
        prev_record_digest: [u8; 32],
        record_digest: [u8; 32],
        charter_digest: &str,
        profile_digest: [u8; 32],
        epoch_id: u64,
    ) -> (r: [u8; 32])
        requires
            self.wf(),
        ensures
            r@ == vrf_tag_of(
                self.current.vrf_sk@,
                prev_record_digest@,
                record_digest@,
                charter_digest.spec_bytes(),
                profile_digest@,
                epoch_id,
            ),
    {
        let message = self.build_message(
            prev_record_digest,
            record_digest,
            charter_digest,
            profile_digest,
            epoch_id,
        );
        let signature = ed25519_sign(self.current.vrf_sk.as_slice(), message.as_slice());
        digest_signature(signature.as_slice())
    }

    /// Builds the VRF preimage for the given chain inputs.
    pub fn build_message(
        &self,
        prev_record_digest: [u8; 32],
        record_digest: [u8; 32],
        charter_digest: &str,
        profile_digest: [u8; 32],
        epoch_id: u64,
    ) -> (r: Vec<u8>)
        ensures
            r@ == vrf_preimage(
                prev_record_digest@,
                record_digest@,
                charter_digest.spec_bytes(),
                profile_digest@,
                epoch_id,
            ),
    {
        let mut msg: Vec<u8> = Vec::new();
        append_bytes(&mut msg, "UCF:VRF:EXPERIENCE_RECORD".as_bytes());
        append_bytes(&mut msg, prev_record_digest.as_slice());
        append_bytes(&mut msg, record_digest.as_slice());
        append_bytes(&mut msg, charter_digest.as_bytes());
        append_bytes(&mut msg, profile_digest.as_slice());
        push_le64(&mut msg, epoch_id);
        proof {
            assert(msg@ =~= vrf_preimage(
                prev_record_digest@,
                record_digest@,
                charter_digest.spec_bytes(),
                profile_digest@,
                epoch_id,
            ));
        }
        msg
    }

    /// Signs an already-built preimage under the engine's key.
    pub fn sign_message(&self, message: &[u8]) -> (r: Vec<u8>)
        requires
            self.wf(),
        ensures
            r@ == ed25519_sig_of(self.current.vrf_sk@, message@),
            r@.len() == 64,
    {
        ed25519_sign(self.current.vrf_sk.as_slice(), message)
    }
}

/// Compresses a signature into the 32-byte tag: BLAKE3 of SHA-512 of the
/// signature bytes.
pub fn digest_signature(signature: &[u8]) -> (r: [u8; 32])
    ensures
        r@ == blake3_of(sha512_of(signature@)),
{
    let sig_hash = sha512_digest(signature);
    blake3_hash32(sig_hash.as_slice())
}

/// VRF determinism: engines holding the same key seed assign the same tag to
/// the same chain inputs.
pub proof fn lemma_vrf_determinism(
    e1: VrfEngine,
    e2: VrfEngine,
    prev_record_digest: Seq<u8>,
    record_digest: Seq<u8>,
    charter_digest: Seq<u8>,
    profile_digest: Seq<u8>,
    epoch_id: u64,
)
    requires
        e1.current.vrf_sk@ == e2.current.vrf_sk@,
    ensures
        vrf_tag_of(
            e1.current.vrf_sk@,
            prev_record_digest,
            record_digest,
            charter_digest,
            profile_digest,
            epoch_id,
        ) == vrf_tag_of(
            e2.current.vrf_sk@,
            prev_record_digest,
            record_digest,
            charter_digest,
            profile_digest,
            epoch_id,
        ),
{
}

/// VRF input sensitivity: two evaluations share their preimage only when
/// every chain input is the same, the epoch as well. The tags then differ
/// whenever the signature, hash, and compression stages are collision-free
/// on the two preimages.
pub proof fn lemma_vrf_preimage_injective(
    p1: Seq<u8>,
    r1: Seq<u8>,
    c1: Seq<u8>,
    f1: Seq<u8>,
    e1: u64,
    p2: Seq<u8>,
    r2: Seq<u8>,
    c2: Seq<u8>,
    f2: Seq<u8>,
    e2: u64,
)
    requires
        p1.len() == 32,
        r1.len() == 32,
        f1.len() == 32,
        p2.len() == 32,
        r2.len() == 32,
        f2.len() == 32,
        vrf_preimage(p1, r1, c1, f1, e1) == vrf_preimage(p2, r2, c2, f2, e2),
    ensures
        p1 == p2,
        r1 == r2,
        c1 == c2,
        f1 == f2,
        e1 == e2,
{
    let d = vrf_domain_bytes();
    assert(vrf_preimage(p1, r1, c1, f1, e1) =~= d + (p1 + (r1 + (c1 + (f1 + le64(e1))))));
    assert(vrf_preimage(p2, r2, c2, f2, e2) =~= d + (p2 + (r2 + (c2 + (f2 + le64(e2))))));
    lemma_concat_fixed_split(
        d,
        p1 + (r1 + (c1 + (f1 + le64(e1)))),
        d,
        p2 + (r2 + (c2 + (f2 + le64(e2)))),
    );
    lemma_concat_fixed_split(p1, r1 + (c1 + (f1 + le64(e1))), p2, r2 + (c2 + (f2 + le64(e2))));
    lemma_concat_fixed_split(r1, c1 + (f1 + le64(e1)), r2, c2 + (f2 + le64(e2)));
    assert(le64(e1).len() == 8);
    assert(le64(e2).len() == 8);
    assert(c1.len() == c2.len());
    lemma_concat_fixed_split(c1, f1 + le64(e1), c2, f2 + le64(e2));
    lemma_concat_fixed_split(f1, le64(e1), f2, le64(e2));
    lemma_le64_injective(e1, e2);
}

} // verus!
