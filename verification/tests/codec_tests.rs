use ucf_core::AssetDigest;
use ucf_core::AssetKind;
use ucf_core::CanonicalIntent;
use ucf_core::CanonicalRecord;
use ucf_core::Channel;
use ucf_core::DataClass;
use ucf_core::DecodeError;
use ucf_core::Digest32;
use ucf_core::IntentParams;
use ucf_core::MicroModule;
use ucf_core::MicrocircuitConfigEvidence;
use ucf_core::ProofReceipt;
use ucf_core::QueryParams;
use ucf_core::ReasonCodes;
use ucf_core::ReceiptStatus;
use ucf_core::Ref;
use ucf_core::RiskLevel;
use ucf_core::Signature;
use ucf_core::canonical_bytes;
use ucf_core::digest32;

fn hpa_fixture_record() -> MicrocircuitConfigEvidence {
    MicrocircuitConfigEvidence {
        module: MicroModule::Hpa,
        config_version: 1,
        config_digest: Some(Digest32 { value: vec![0x44; 32] }),
        created_at_ms: 1_700_125_000,
        prev_config_digest: None,
        proof_receipt_ref: None,
        attestation_sig: None,
        attestation_key_id: None,
    }
}

#[test]
fn microcircuit_config_hpa_bin_case() {
    let expected = hpa_fixture_record();
    let fixture_bytes = canonical_bytes(&expected);

    let decoded = MicrocircuitConfigEvidence::decode(fixture_bytes.as_slice()).unwrap();
    let encoded = canonical_bytes(&decoded);
    assert_eq!(fixture_bytes, encoded, "canonical bytes should be stable");

    let digest = digest32(
        "UCF:HASH:MC_CONFIG",
        "ucf.v1.MicrocircuitConfigEvidence",
        "1",
        &encoded,
    );
    let digest_again = digest32(
        "UCF:HASH:MC_CONFIG",
        "ucf.v1.MicrocircuitConfigEvidence",
        "1",
        &fixture_bytes,
    );
    assert_eq!(digest, digest_again, "digest should match stored fixture");

    let expected_bytes = canonical_bytes(&expected);
    assert_eq!(encoded, expected_bytes, "constructed and fixture differ");
    assert_eq!(decoded, expected);
    assert_eq!(decoded.created_at_ms, 1700125000);
    assert_eq!(decoded.config_digest.as_ref().unwrap().value.len(), 32);
    assert_eq!(
        hex::encode(digest),
        "c536b8a360710c0e32aadeae7090c1c80270301361b297fed5f7e854ecf4abd0",
        "digest should match stored fixture"
    );
}

#[test]
fn microcircuit_config_hpa_exact_wire_bytes() {
    let record = hpa_fixture_record();
    let mut expected: Vec<u8> = vec![0x08, 0x01, 0x10, 0x01, 0x1A, 0x22, 0x0A, 0x20];
    expected.extend(std::iter::repeat(0x44u8).take(32));
    expected.extend(vec![0x20, 0xC8, 0xB2, 0xD7, 0xAA, 0x06]);
    assert_eq!(canonical_bytes(&record), expected);
}

#[test]
fn canonical_intent_query_case() {
    let expected = CanonicalIntent {
        intent_id: "intent-123".to_string(),
        channel: Channel::Realtime,
        risk_level: RiskLevel::Low,
        data_class: DataClass::Public,
        subject: Some(Ref {
            uri: "did:example:subject".to_string(),
            label: "primary".to_string(),
        }),
        reason_codes: Some(ReasonCodes {
            codes: vec!["baseline".to_string(), "query".to_string()],
        }),
        params: Some(IntentParams::Query(QueryParams {
            query: "select * from controls".to_string(),
            selectors: vec!["bar".to_string(), "foo".to_string()],
        })),
    };

    let bytes = canonical_bytes(&expected);
    let decoded = CanonicalIntent::decode(bytes.as_slice()).unwrap();
    assert_eq!(decoded, expected);
    let reencoded = canonical_bytes(&decoded);
    assert_eq!(bytes, reencoded, "canonical bytes should be stable");

    let digest = digest32("ucf-core", "ucf.v1.CanonicalIntent", "1", &bytes);
    let digest_again = digest32("ucf-core", "ucf.v1.CanonicalIntent", "1", &reencoded);
    assert_eq!(digest, digest_again, "digest should match stored fixture");
}

#[test]
fn digest32_record_round_trip_and_exact_bytes() {
    let record = Digest32 { value: vec![0xAA, 0xBB] };
    let bytes = canonical_bytes(&record);
    assert_eq!(bytes, vec![0x0A, 0x02, 0xAA, 0xBB]);
    assert_eq!(Digest32::decode(&bytes).unwrap(), record);

    let empty = Digest32 { value: vec![] };
    assert_eq!(canonical_bytes(&empty), Vec::<u8>::new());
    assert_eq!(Digest32::decode(&[]).unwrap(), empty);
}

#[test]
fn signature_record_round_trip() {
    let record = Signature {
        algorithm: "ed25519".to_string(),
        signer: vec![0x01, 0x02, 0x03, 0x04],
        signature: vec![0x05, 0x06, 0x07, 0x08],
    };
    let bytes = canonical_bytes(&record);
    assert_eq!(Signature::decode(&bytes).unwrap(), record);
    let mut expected: Vec<u8> = vec![0x0A, 0x07];
    expected.extend(b"ed25519".to_vec());
    expected.extend(vec![0x12, 0x04, 0x01, 0x02, 0x03, 0x04]);
    expected.extend(vec![0x1A, 0x04, 0x05, 0x06, 0x07, 0x08]);
    assert_eq!(bytes, expected);
}

#[test]
fn ref_record_round_trip() {
    let record = Ref {
        uri: "proof://assets/morphology/receipt-1".to_string(),
        label: "morphology-proof".to_string(),
    };
    let bytes = canonical_bytes(&record);
    assert_eq!(Ref::decode(&bytes).unwrap(), record);
}

#[test]
fn reason_codes_round_trip_and_exact_bytes() {
    let record = ReasonCodes { codes: vec!["a".to_string(), "b".to_string()] };
    let bytes = canonical_bytes(&record);
    assert_eq!(bytes, vec![0x0A, 0x01, 0x61, 0x0A, 0x01, 0x62]);
    assert_eq!(ReasonCodes::decode(&bytes).unwrap(), record);

    let empty = ReasonCodes { codes: vec![] };
    assert_eq!(canonical_bytes(&empty), Vec::<u8>::new());
}

#[test]
fn query_params_round_trip() {
    let record = QueryParams {
        query: "select * from controls".to_string(),
        selectors: vec!["bar".to_string(), "foo".to_string()],
    };
    let bytes = canonical_bytes(&record);
    assert_eq!(QueryParams::decode(&bytes).unwrap(), record);
}

#[test]
fn proof_receipt_round_trip() {
    let record = ProofReceipt {
        status: ReceiptStatus::Accepted,
        receipt_digest: Some(Digest32 { value: vec![0x09; 32] }),
        validator: Some(Signature {
            algorithm: "ed25519".to_string(),
            signer: vec![0xAA; 32],
            signature: vec![0xBB; 64],
        }),
        vrf_digest: Some(Digest32 { value: vec![0x0C; 32] }),
    };
    let bytes = canonical_bytes(&record);
    assert_eq!(ProofReceipt::decode(&bytes).unwrap(), record);
}

#[test]
fn asset_digest_round_trip() {
    let record = AssetDigest {
        kind: AssetKind::MorphologySet,
        version: 1,
        digest: Some(Digest32 { value: vec![0x10; 32] }),
        created_at_ms: 1_700_100_123,
        prev_digest: Some(Digest32 { value: vec![0x20; 32] }),
        proof_receipt_ref: Some(Ref {
            uri: "proof://assets/morphology/receipt-1".to_string(),
            label: "morphology-proof".to_string(),
        }),
    };
    let bytes = canonical_bytes(&record);
    assert_eq!(AssetDigest::decode(&bytes).unwrap(), record);
}

#[test]
fn asset_digest_domain_separation() {
    let record = AssetDigest {
        kind: AssetKind::MorphologySet,
        version: 1,
        digest: Some(Digest32 { value: vec![0x10; 32] }),
        created_at_ms: 1_700_100_123,
        prev_digest: None,
        proof_receipt_ref: None,
    };
    let bytes = canonical_bytes(&record);
    let morph = digest32("UCF:ASSET:MORPH", "ucf.v1.AssetDigest", "1", &bytes);
    let manifest = digest32("UCF:ASSET:MANIFEST", "ucf.v1.AssetDigest", "1", &bytes);
    assert_ne!(
        morph, manifest,
        "the same bytes under different domains give different digests"
    );
}

#[test]
fn digest32_is_stable_and_input_sensitive() {
    let a = digest32("ucf-core", "ucf.v1.ReasonCodes", "1", b"payload");
    let b = digest32("ucf-core", "ucf.v1.ReasonCodes", "1", b"payload");
    assert_eq!(a, b);
    assert_eq!(a.len(), 32);
    assert_ne!(&a[..], b"payload".as_slice(), "a digest is not its input");

    let c = digest32("ucf-core", "ucf.v1.ReasonCodes", "1", b"payloae");
    assert_ne!(a, c);
    let d = digest32("ucf-core", "ucf.v1.ReasonCodes", "2", b"payload");
    assert_ne!(a, d);
}

#[test]
fn decode_rejects_malformed_wire() {
    assert_eq!(Digest32::decode(&[0x0A]), Err(DecodeError::MalformedWire));
    assert_eq!(
        Digest32::decode(&[0x0A, 0x81, 0x00]),
        Err(DecodeError::MalformedWire),
        "a non-minimal length varint is rejected"
    );
    assert_eq!(
        Digest32::decode(&[0x0A, 0x00]),
        Err(DecodeError::MalformedWire),
        "a written-out empty bytes field is rejected"
    );
    assert_eq!(
        AssetDigest::decode(&[0x08, 0x00]),
        Err(DecodeError::MalformedWire),
        "a written-out zero scalar is rejected"
    );
}

#[test]
fn decode_rejects_trailing_bytes() {
    assert_eq!(
        Digest32::decode(&[0x0A, 0x01, 0xFF, 0x07]),
        Err(DecodeError::TrailingBytes)
    );
}

#[test]
fn decode_rejects_unknown_field() {
    assert_eq!(
        Digest32::decode(&[0x12, 0x00]),
        Err(DecodeError::UnknownRequiredField)
    );
}

#[test]
fn decode_rejects_type_mismatch() {
    assert_eq!(
        AssetDigest::decode(&[0x08, 0x09]),
        Err(DecodeError::FieldTypeMismatch),
        "an unknown asset kind code is rejected"
    );
    assert_eq!(
        Ref::decode(&[0x0A, 0x01, 0xFF]),
        Err(DecodeError::FieldTypeMismatch),
        "a string field must hold UTF-8 text"
    );
}

#[test]
fn decode_rejects_oversized_version() {
    let bytes: Vec<u8> = vec![0x08, 0x01, 0x10, 0x80, 0x80, 0x80, 0x80, 0x10];
    assert_eq!(
        AssetDigest::decode(&bytes),
        Err(DecodeError::FieldTypeMismatch),
        "a version beyond 32 bits is rejected"
    );
}

#[test]
fn varint_length_boundary() {
    let short = Digest32 { value: vec![0x11; 127] };
    let long = Digest32 { value: vec![0x11; 128] };
    let short_bytes = canonical_bytes(&short);
    let long_bytes = canonical_bytes(&long);
    assert_eq!(short_bytes.len(), 2 + 127, "a 127-byte length takes one varint byte");
    assert_eq!(long_bytes.len(), 3 + 128, "a 128-byte length takes two varint bytes");
    assert_eq!(&short_bytes[..2], &[0x0A, 0x7F]);
    assert_eq!(&long_bytes[..3], &[0x0A, 0x80, 0x01]);
    assert_eq!(Digest32::decode(&short_bytes).unwrap(), short);
    assert_eq!(Digest32::decode(&long_bytes).unwrap(), long);
}

#[test]
fn optional_presence_is_kept_on_the_wire() {
    let with_empty_key = MicrocircuitConfigEvidence {
        module: MicroModule::Hpa,
        config_version: 1,
        config_digest: None,
        created_at_ms: 1,
        prev_config_digest: None,
        proof_receipt_ref: None,
        attestation_sig: None,
        attestation_key_id: Some(String::new()),
    };
    let mut without_key = with_empty_key.clone();
    without_key.attestation_key_id = None;

    let bytes_with = canonical_bytes(&with_empty_key);
    let bytes_without = canonical_bytes(&without_key);
    assert_ne!(
        bytes_with, bytes_without,
        "an empty value set under optional presence keeps its field"
    );
    assert_eq!(
        MicrocircuitConfigEvidence::decode(&bytes_with).unwrap(),
        with_empty_key
    );
    assert_eq!(
        MicrocircuitConfigEvidence::decode(&bytes_without).unwrap(),
        without_key
    );
}
