use ucf_core::ProofReceiptInputs;
use ucf_core::ProofReceiptIssuer;
use ucf_core::PvgsKeyEpoch;
use ucf_core::ReceiptError;
use ucf_core::ReceiptStatus;
use ucf_core::Signature;
use ucf_core::VrfEngine;
use ucf_core::chain::genesis_prev_digest;
use ucf_core::record_digest_from_components;

fn sample_signature() -> Signature {
    Signature {
        algorithm: "ed25519".to_string(),
        signer: vec![0xAA; 32],
        signature: vec![0xBB; 64],
    }
}

#[test]
fn proof_receipt_carries_vrf_digest() {
    let vrf_engine = VrfEngine::new_dev(5);
    let issuer = ProofReceiptIssuer::new(vrf_engine.clone());

    let receipt = issuer.issue_proof_receipt(ProofReceiptInputs {
        status: ReceiptStatus::Accepted,
        receipt_digest: [9u8; 32],
        verified_fields_digest: [3u8; 32],
        prev_record_digest: [0u8; 32],
        charter_digest: "charter-digest".to_string(),
        profile_digest: [2u8; 32],
        commit_id: b"commit-abc123".to_vec(),
        epoch_id: vrf_engine.current_epoch(),
        validator: sample_signature(),
    });

    let vrf_digest = receipt
        .vrf_digest
        .as_ref()
        .expect("vrf digest should be set")
        .value
        .clone();

    assert!(
        vrf_digest.iter().any(|b| *b != 0),
        "VRF digest should not be all zeros"
    );

    let expected = vrf_engine.eval_record_vrf(
        [0u8; 32],
        record_digest_from_components([3u8; 32], [0u8; 32], b"commit-abc123"),
        "charter-digest",
        [2u8; 32],
        vrf_engine.current_epoch(),
    );

    assert_eq!(
        vrf_digest,
        expected.to_vec(),
        "VRF digest should be deterministic"
    );
}

#[test]
fn receipt_keeps_status_and_signature() {
    let vrf_engine = VrfEngine::new_dev(5);
    let issuer = ProofReceiptIssuer::new(vrf_engine);

    let receipt = issuer.issue_proof_receipt(ProofReceiptInputs {
        status: ReceiptStatus::Rejected,
        receipt_digest: [7u8; 32],
        verified_fields_digest: [3u8; 32],
        prev_record_digest: [0u8; 32],
        charter_digest: "charter-digest".to_string(),
        profile_digest: [2u8; 32],
        commit_id: b"commit-abc123".to_vec(),
        epoch_id: 5,
        validator: sample_signature(),
    });

    assert_eq!(receipt.status, ReceiptStatus::Rejected);
    assert_eq!(receipt.receipt_digest.as_ref().unwrap().value, vec![7u8; 32]);
    assert_eq!(receipt.validator.as_ref().unwrap(), &sample_signature());
    assert!(
        receipt.vrf_digest.is_some(),
        "a rejected receipt still carries a VRF tag"
    );
}

fn sample_inputs(epoch_id: u64) -> ProofReceiptInputs {
    ProofReceiptInputs {
        status: ReceiptStatus::Accepted,
        receipt_digest: [9u8; 32],
        verified_fields_digest: [3u8; 32],
        prev_record_digest: [0u8; 32],
        charter_digest: "charter-digest".to_string(),
        profile_digest: [2u8; 32],
        commit_id: b"commit-abc123".to_vec(),
        epoch_id,
        validator: sample_signature(),
    }
}

#[test]
fn checked_issuance_rejects_an_epoch_mismatch() {
    let vrf_engine = VrfEngine::new_dev(5);
    let issuer = ProofReceiptIssuer::new(vrf_engine.clone());
    let validator_key = PvgsKeyEpoch {
        epoch_id: 6,
        attestation_key_id: "attest-key-1".to_string(),
        attestation_public_key: vec![0x01; 32],
        vrf_public_key: vrf_engine.vrf_public_key().to_vec(),
        signature: vec![0x02; 64],
    };

    let refused = issuer.issue_proof_receipt_checked(sample_inputs(5), &validator_key);
    assert_eq!(refused, Err(ReceiptError::EpochMismatch));

    let mut matching_key = validator_key.clone();
    matching_key.epoch_id = 5;
    let receipt = issuer
        .issue_proof_receipt_checked(sample_inputs(5), &matching_key)
        .unwrap();
    assert_eq!(receipt, issuer.issue_proof_receipt(sample_inputs(5)));
}

#[test]
fn chain_digest_changes_with_commit_id() {
    let rd1 = record_digest_from_components([3u8; 32], [0u8; 32], b"commit-abc123");
    let rd2 = record_digest_from_components([3u8; 32], [0u8; 32], b"commit-abc124");
    assert_ne!(rd1, rd2, "distinct commit ids give distinct record digests");

    let engine = VrfEngine::new_dev(5);
    let tag1 = engine.eval_record_vrf([0u8; 32], rd1, "charter-digest", [2u8; 32], 5);
    let tag2 = engine.eval_record_vrf([0u8; 32], rd2, "charter-digest", [2u8; 32], 5);
    assert_ne!(tag1, tag2, "distinct record digests give distinct VRF tags");
}

#[test]
fn genesis_uses_the_explicit_zero_digest() {
    let genesis = genesis_prev_digest();
    assert_eq!(genesis, [0u8; 32]);
    let first = record_digest_from_components([3u8; 32], genesis, b"commit-0");
    assert!(first.iter().any(|b| *b != 0));
}

#[test]
fn chain_digest_changes_with_each_component() {
    let base = record_digest_from_components([3u8; 32], [0u8; 32], b"commit");
    let vfd = record_digest_from_components([4u8; 32], [0u8; 32], b"commit");
    let prev = record_digest_from_components([3u8; 32], [1u8; 32], b"commit");
    assert_ne!(base, vfd);
    assert_ne!(base, prev);
    assert_eq!(
        base,
        record_digest_from_components([3u8; 32], [0u8; 32], b"commit"),
        "the chain digest is a pure function of its components"
    );
    assert_eq!(base.len(), 32);
}
