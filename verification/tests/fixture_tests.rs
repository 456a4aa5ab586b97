use ucf_core::CanonicalRecord;
use ucf_core::Digest32;
use ucf_core::ReasonCodes;
use ucf_core::canonical_bytes;
use ucf_core::digest32;
use ucf_core::fixture::digest_file_text;
use ucf_core::fixture::fixture_registry;
use ucf_core::fixture::parse_digest_fixture;
use ucf_core::fixture::parse_hex_fixture;
use ucf_core::fixture::registry_covers;
use ucf_core::fixture::registry_names_sorted;
use ucf_core::fixture::schema_catalog;
use ucf_core::fixture::sort_string_set;
use ucf_core::fixture::strings_sorted;
use ucf_core::fixture::to_hex_line;
use ucf_core::fixture::verify_fixture;

#[test]
fn fixture_registry_is_complete() {
    let registry = fixture_registry();
    assert!(
        registry_names_sorted(&registry),
        "fixture registry should be sorted by name"
    );

    for case in &registry {
        assert!(
            !case.schema.is_empty(),
            "schema identifier must be set for {}",
            case.name
        );
    }

    let catalog = schema_catalog();
    assert!(
        registry_covers(&registry, &catalog),
        "missing fixture coverage for a schema of the catalog"
    );
}

#[test]
fn hex_line_round_trips() {
    let line = to_hex_line(&[0x01, 0x02]);
    assert_eq!(line, "0102\n");

    let parsed = parse_hex_fixture(line.as_bytes()).unwrap();
    assert_eq!(parsed, vec![0x01, 0x02]);

    assert_eq!(to_hex_line(&[1, 2, 3, 15, 16]), "0102030f10\n");
    assert_eq!(parse_hex_fixture(b" 0102 \n"), Some(vec![0x01, 0x02]));
    assert_eq!(parse_hex_fixture(b"ABCD"), Some(vec![0xAB, 0xCD]));
    assert_eq!(parse_hex_fixture(b"0"), None);
    assert_eq!(parse_hex_fixture(b"0g"), None);
    assert_eq!(parse_hex_fixture(b""), Some(vec![]));
}

#[test]
fn digest_file_round_trips() {
    let digest = digest32("ucf-core", "ucf.v1.ReasonCodes", "1", b"bytes");
    let text = digest_file_text(&digest);
    assert_eq!(text.len(), 65, "64 hex digits and a newline");
    let parsed = parse_digest_fixture(text.as_bytes()).unwrap();
    assert_eq!(parsed, digest.to_vec());

    assert_eq!(parse_digest_fixture(b"0102\n"), None, "a digest must hold 32 bytes");
}

#[test]
fn verify_fixture_accepts_and_rejects() {
    let record = ReasonCodes { codes: vec!["baseline".to_string(), "query".to_string()] };
    let bytes = canonical_bytes(&record);
    let digest = digest32("ucf-core", "ucf.v1.ReasonCodes", "1", &bytes);

    assert!(verify_fixture(
        &record,
        &bytes,
        "ucf-core",
        "ucf.v1.ReasonCodes",
        "1",
        &digest
    ));

    let mut tampered = bytes.clone();
    tampered[0] ^= 0x01;
    assert!(!verify_fixture(
        &record,
        &tampered,
        "ucf-core",
        "ucf.v1.ReasonCodes",
        "1",
        &digest
    ));

    assert!(!verify_fixture(
        &record,
        &bytes,
        "UCF:ASSET:MORPH",
        "ucf.v1.ReasonCodes",
        "1",
        &digest
    ));
}

#[test]
fn set_fields_are_checked_for_sortedness() {
    let sorted = vec!["bar".to_string(), "foo".to_string()];
    assert!(strings_sorted(&sorted));

    let unsorted = vec!["foo".to_string(), "bar".to_string()];
    assert!(!strings_sorted(&unsorted));

    let prefix = vec!["ab".to_string(), "abc".to_string()];
    assert!(strings_sorted(&prefix));
    let prefix_rev = vec!["abc".to_string(), "ab".to_string()];
    assert!(!strings_sorted(&prefix_rev));

    assert!(strings_sorted(&vec![]));
    assert!(strings_sorted(&vec!["only".to_string()]));
    assert!(strings_sorted(&vec!["dup".to_string(), "dup".to_string()]));
}

#[test]
fn set_fields_can_be_normalized() {
    let sorted = sort_string_set(vec![
        "foo".to_string(),
        "bar".to_string(),
        "baz".to_string(),
    ]);
    assert_eq!(sorted, vec!["bar".to_string(), "baz".to_string(), "foo".to_string()]);
    assert!(strings_sorted(&sorted));

    let with_dup = sort_string_set(vec![
        "query".to_string(),
        "baseline".to_string(),
        "query".to_string(),
    ]);
    assert_eq!(
        with_dup,
        vec!["baseline".to_string(), "query".to_string(), "query".to_string()]
    );

    assert_eq!(sort_string_set(vec![]), Vec::<String>::new());
}

#[test]
fn fixture_side_cars_cover_a_whole_record() {
    let record = Digest32 { value: vec![0x44; 32] };
    let bytes = canonical_bytes(&record);
    let digest = digest32("ucf-core", "ucf.v1.Digest32", "1", &bytes);

    let hex_file = to_hex_line(&bytes);
    let digest_file = digest_file_text(&digest);

    let loaded_bytes = parse_hex_fixture(hex_file.as_bytes()).unwrap();
    let loaded_digest = parse_digest_fixture(digest_file.as_bytes()).unwrap();

    let decoded = Digest32::decode(&loaded_bytes).unwrap();
    assert!(verify_fixture(
        &decoded,
        &loaded_bytes,
        "ucf-core",
        "ucf.v1.Digest32",
        "1",
        &loaded_digest
    ));
}
