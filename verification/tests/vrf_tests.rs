use ucf_core::VrfEngine;
use ucf_core::digest_signature;

fn sample_inputs() -> ([u8; 32], [u8; 32], &'static str, [u8; 32], u64) {
    ([0u8; 32], [1u8; 32], "charter-digest", [2u8; 32], 42)
}

#[test]
fn vrf_digest_is_deterministic() {
    let engine = VrfEngine::new_dev(7);
    let (prev_record_digest, record_digest, charter_digest, profile_digest, epoch_id) =
        sample_inputs();

    let digest1 = engine.eval_record_vrf(
        prev_record_digest,
        record_digest,
        charter_digest,
        profile_digest,
        epoch_id,
    );
    let digest2 = engine.eval_record_vrf(
        prev_record_digest,
        record_digest,
        charter_digest,
        profile_digest,
        epoch_id,
    );

    assert_eq!(digest1, digest2, "VRF digest should be deterministic");
}

#[test]
fn vrf_digest_changes_with_record_digest() {
    let engine = VrfEngine::new_dev(7);
    let (prev_record_digest, record_digest, charter_digest, profile_digest, epoch_id) =
        sample_inputs();
    let mut tweaked_record_digest = record_digest;
    tweaked_record_digest[0] ^= 0xFF;

    let digest1 = engine.eval_record_vrf(
        prev_record_digest,
        record_digest,
        charter_digest,
        profile_digest,
        epoch_id,
    );
    let digest2 = engine.eval_record_vrf(
        prev_record_digest,
        tweaked_record_digest,
        charter_digest,
        profile_digest,
        epoch_id,
    );

    assert_ne!(
        digest1, digest2,
        "VRF digest should change when record digest changes"
    );
}

#[test]
fn temporary_verify_recomputes_digest_from_signature() {
    let engine = VrfEngine::new_dev(9);
    let (prev_record_digest, record_digest, charter_digest, profile_digest, epoch_id) =
        sample_inputs();

    let message = engine.build_message(
        prev_record_digest,
        record_digest,
        charter_digest,
        profile_digest,
        epoch_id,
    );
    let signature = engine.sign_message(&message);
    let digest = engine.eval_record_vrf(
        prev_record_digest,
        record_digest,
        charter_digest,
        profile_digest,
        epoch_id,
    );

    let recomputed = digest_signature(&signature);
    assert_eq!(
        digest, recomputed,
        "TEMPORARY_VRF digest should match recomputed hash of signature"
    );
}

#[test]
fn vrf_flip_of_one_record_byte_changes_tag() {
    let engine = VrfEngine::new_dev(7);
    let prev = [0u8; 32];
    let rec = [1u8; 32];
    let tag1 = engine.eval_record_vrf(prev, rec, "charter-digest", [2u8; 32], 42);
    let tag2 = engine.eval_record_vrf(prev, rec, "charter-digest", [2u8; 32], 42);
    assert_eq!(tag1, tag2);

    let mut tweaked = rec;
    tweaked[0] = 0xFE;
    let tag3 = engine.eval_record_vrf(prev, tweaked, "charter-digest", [2u8; 32], 42);
    assert_ne!(tag1, tag3);
}

#[test]
fn vrf_tag_depends_on_epoch() {
    let engine = VrfEngine::new_dev(7);
    let (prev, rec, charter, profile, _) = sample_inputs();
    let tag_a = engine.eval_record_vrf(prev, rec, charter, profile, 42);
    let tag_b = engine.eval_record_vrf(prev, rec, charter, profile, 43);
    assert_ne!(tag_a, tag_b, "distinct epochs should give distinct tags");
}

#[test]
fn vrf_tag_is_nonzero() {
    let engine = VrfEngine::new_dev(7);
    let (prev, rec, charter, profile, epoch_id) = sample_inputs();
    let tag = engine.eval_record_vrf(prev, rec, charter, profile, epoch_id);
    assert!(tag.iter().any(|b| *b != 0), "VRF digest should not be all zeros");
}

#[test]
fn dev_engine_key_id_names_public_key_prefix() {
    let engine = VrfEngine::new_dev(7);
    let key_id = engine.current.key_id.clone();
    assert!(key_id.starts_with("TEMPORARY_VRF:"));
    assert_eq!(key_id.len(), "TEMPORARY_VRF:".len() + 16);
    let hex_part = &key_id["TEMPORARY_VRF:".len()..];
    assert!(hex_part.chars().all(|c| c.is_ascii_hexdigit() && !c.is_ascii_uppercase()));

    let pk = engine.vrf_public_key().to_vec();
    assert_eq!(pk.len(), 32);
    assert_eq!(engine.current_epoch(), 7);

    let again = VrfEngine::new_dev(7);
    assert_eq!(again.current.key_id, key_id, "dev key derivation is deterministic");
    assert_eq!(again.vrf_public_key(), engine.vrf_public_key());

    let other = VrfEngine::new_dev(8);
    assert_ne!(other.vrf_public_key(), engine.vrf_public_key());
}

#[test]
fn signatures_are_deterministic_and_not_the_message() {
    let engine = VrfEngine::new_dev(3);
    let message = b"ucf-signing-check".to_vec();
    let sig1 = engine.sign_message(&message);
    let sig2 = engine.sign_message(&message);
    assert_eq!(sig1, sig2);
    assert_eq!(sig1.len(), 64);
    assert_ne!(sig1, message, "a signature is not the message itself");

    let other = engine.sign_message(b"ucf-signing-check2");
    assert_ne!(sig1, other);

    let digest = digest_signature(&sig1);
    assert_eq!(digest.len(), 32);
    assert_ne!(&digest[..], &sig1[..32], "compression does not hand back its input");
}
