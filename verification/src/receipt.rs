//! Proof-receipt issuance: a pure combinator over the record hash-chain and
//! the VRF engine. The issuer does not sign; it consumes an
//! already-produced validator signature and binds the VRF tag to the same
//! chain inputs the record digest was computed from.

use vstd::prelude::*;
use vstd::utf8::encode_utf8;

use crate::chain::record_digest_from_components;
use crate::chain::record_digest_of;
use crate::records::Digest32;
use crate::records::ProofReceipt;
use crate::records::ReceiptStatus;
use crate::records::Signature;
use crate::vrf::VrfEngine;
use crate::vrf::vrf_tag_of;

verus! {

/// Internal announcement format for key epochs: the epoch and the key
/// material fixed for it.
#[derive(Clone, Debug)]
pub struct PvgsKeyEpoch {
    pub epoch_id: u64,
    pub attestation_key_id: String,
    pub attestation_public_key: Vec<u8>,
    pub vrf_public_key: Vec<u8>,
    pub signature: Vec<u8>,
}

/// Why receipt issuance was refused. A wrong-length verified-fields digest
/// cannot arise here, because the inputs carry digests as 32-byte arrays,
/// and a missing VRF key cannot arise under a well-formed issuer, so an
/// epoch mismatch is the one refusal left.
#[derive(Clone, Copy, Debug, PartialEq, Eq, Structural)]
pub enum ReceiptError {
    /// The validator signature's key epoch differs from the epoch the
    /// record declares.
    EpochMismatch,
}

/// Everything a receipt binds: the status, the digests, the chain inputs,
/// and the validator's signature over the receipt digest.
#[derive(Clone, Debug)]
pub struct ProofReceiptInputs {
    pub status: ReceiptStatus,
    pub receipt_digest: [u8; 32],
    pub verified_fields_digest: [u8; 32],
    pub prev_record_digest: [u8; 32],
    pub charter_digest: String,
    pub profile_digest: [u8; 32],
    pub commit_id: Vec<u8>,
    pub epoch_id: u64,
    pub validator: Signature,
}

/// Issues proof receipts under one VRF engine.
pub struct ProofReceiptIssuer {
    vrf_engine: VrfEngine,
}

impl ProofReceiptIssuer {
    /// The issuer's engine holds consistent key material.
    pub closed spec fn wf(&self) -> bool {
        self.vrf_engine.wf()
    }

    /// The VRF key seed the issuer evaluates tags under.
    pub closed spec fn seed(&self) -> Seq<u8> {
        self.vrf_engine.current.vrf_sk@
    }

    /// The VRF public key bytes of the issuer's engine.
    pub closed spec fn vrf_pk(&self) -> Seq<u8> {
        self.vrf_engine.current.vrf_pk@
    }

    /// Wraps a VRF engine into an issuer.
    pub fn new(vrf_engine: VrfEngine) -> (r: Self)
        requires
            vrf_engine.wf(),
        ensures
            r.wf(),
            r.seed() == vrf_engine.current.vrf_sk@,
            r.vrf_pk() == vrf_engine.current.vrf_pk@,
    {
        Self { vrf_engine }
    }

    /// The VRF public key under which the issuer's tags verify.
    pub fn vrf_public_key(&self) -> (r: &[u8])
        ensures
            r@ == self.vrf_pk(),
    {
        self.vrf_engine.vrf_public_key()
    }

    /// Issues a proof receipt: recomputes the chained record digest from the
    /// verified-fields digest, the predecessor digest and the commit
    /// identifier, evaluates the VRF tag over the same chain inputs, and
    /// packages both with the status and the validator's signature. The
    /// receipt's VRF digest always equals the tag recomputed from the same
    /// inputs, for a rejected status as for an accepted one.
    pub fn issue_proof_receipt(&self, inputs: ProofReceiptInputs) -> (r: ProofReceipt)
        requires
            self.wf(),
        ensures
            r.status == inputs.status,
            r.receipt_digest matches Some(d) && d.value@ == inputs.receipt_digest@,
            r.validator matches Some(sig) && sig@ == inputs.validator@,
            r.vrf_digest matches Some(d) && d.value@ == vrf_tag_of(
                self.seed(),
                inputs.prev_record_digest@,
                record_digest_of(
                    inputs.verified_fields_digest@,
                    inputs.prev_record_digest@,
                    inputs.commit_id@,
                ),
                encode_utf8(inputs.charter_digest@),
                inputs.profile_digest@,
                inputs.epoch_id,
            ),
    {
        let record_digest = record_digest_from_components(
            inputs.verified_fields_digest,
            inputs.prev_record_digest,
            inputs.commit_id.as_slice(),
        );
        let vrf_digest = self.vrf_engine.eval_record_vrf(
            inputs.prev_record_digest,
            record_digest,
            inputs.charter_digest.as_str(),
            inputs.profile_digest,
            inputs.epoch_id,
        );
        ProofReceipt {
            status: inputs.status,
            receipt_digest: Some(
                Digest32 { value: vstd::slice::slice_to_vec(inputs.receipt_digest.as_slice()) },
            ),
            validator: Some(inputs.validator),
            vrf_digest: Some(
                Digest32 { value: vstd::slice::slice_to_vec(vrf_digest.as_slice()) },
            ),
        }
    }

    /// Issues a proof receipt under an epoch check: the validator
    /// signature's key epoch must be the epoch the record declares, else
    /// the issuance is refused with an epoch mismatch and no receipt is
    /// produced. On success the receipt is exactly what
    /// `issue_proof_receipt` builds from the same inputs.
    pub fn issue_proof_receipt_checked(
        &self,
        inputs: ProofReceiptInputs,
        validator_key: &PvgsKeyEpoch,
    ) -> (r: Result<ProofReceipt, ReceiptError>)
        requires
            self.wf(),
        ensures
            r is Ok <==> validator_key.epoch_id == inputs.epoch_id,
            r matches Err(e) ==> e == ReceiptError::EpochMismatch,
            r matches Ok(rec) ==> {
                &&& rec.status == inputs.status
                &&& rec.receipt_digest matches Some(d) && d.value@ == inputs.receipt_digest@
                &&& rec.validator matches Some(sig) && sig@ == inputs.validator@
                &&& rec.vrf_digest matches Some(d) && d.value@ == vrf_tag_of(
                    self.seed(),
                    inputs.prev_record_digest@,
                    record_digest_of(
                        inputs.verified_fields_digest@,
                        inputs.prev_record_digest@,
                        inputs.commit_id@,
                    ),
                    encode_utf8(inputs.charter_digest@),
                    inputs.profile_digest@,
                    inputs.epoch_id,
                )
            },
    {
        if validator_key.epoch_id != inputs.epoch_id {
            return Err(ReceiptError::EpochMismatch);
        }
        Ok(self.issue_proof_receipt(inputs))
    }
}

} // verus!
