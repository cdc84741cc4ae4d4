use keeper_attest::validate::{is_valid_checksum, is_valid_format_version, is_valid_keeper_id};

#[test]
fn format_version_boundaries() {
    assert!(!is_valid_format_version(0));
    assert!(is_valid_format_version(1));
    assert!(!is_valid_format_version(2));
    assert!(!is_valid_format_version(u32::MAX));
}

#[test]
fn nil_uuid_is_rejected() {
    assert!(!is_valid_keeper_id("00000000-0000-0000-0000-000000000000"));
    assert!(!is_valid_keeper_id("00000000000000000000000000000000"));
}

#[test]
fn well_formed_uuid_is_accepted() {
    assert!(is_valid_keeper_id("3fa85f64-5717-4562-b3fc-2c963f66afa6"));
    assert!(is_valid_keeper_id("3FA85F64-5717-4562-B3FC-2C963F66AFA6"));
    assert!(is_valid_keeper_id("3fa85f6457174562b3fc2c963f66afa6"));
    assert!(is_valid_keeper_id("{3fa85f64-5717-4562-b3fc-2c963f66afa6}"));
    assert!(is_valid_keeper_id("urn:uuid:3fa85f64-5717-4562-b3fc-2c963f66afa6"));
    assert!(is_valid_keeper_id("00000000-0000-0000-0000-000000000001"));
}

#[test]
fn non_uuid_is_rejected() {
    assert!(!is_valid_keeper_id("not-a-uuid"));
    assert!(!is_valid_keeper_id(""));
    assert!(!is_valid_keeper_id("123456"));
    assert!(!is_valid_keeper_id("3fa85f64-5717-4562-b3fc-2c963f66afag"));
    assert!(!is_valid_keeper_id("3fa85f64+5717-4562-b3fc-2c963f66afa6"));
    assert!(!is_valid_keeper_id("(3fa85f64-5717-4562-b3fc-2c963f66afa6)"));
}

#[test]
fn checksum_length_boundaries() {
    assert!(!is_valid_checksum(&"a".repeat(63)));
    assert!(!is_valid_checksum(&"a".repeat(65)));
    assert!(is_valid_checksum(&"a".repeat(64)));
    assert!(!is_valid_checksum(""));
}

#[test]
fn checksum_mixed_case_is_accepted() {
    let s = "0123456789abcdefABCDEF".repeat(3);
    assert!(is_valid_checksum(&s[..64]));
}

#[test]
fn checksum_with_non_hex_is_rejected() {
    let mut s = "a".repeat(63);
    s.push('g');
    assert!(!is_valid_checksum(&s));
    let mut t = "a".repeat(62);
    t.push('\u{e9}');
    assert!(!is_valid_checksum(&t));
}

