use keeper_attest::attestation::{
    validate_backup, BackupOutcome, BackupRequest, ContactType, ValidationError,
};

const KEEPER: &str = "3fa85f64-5717-4562-b3fc-2c963f66afa6";

fn request(format_version: u32, keeper_id: &str, checksum: &str) -> BackupRequest {
    BackupRequest {
        format_version,
        keeper_id: keeper_id.to_string(),
        checksum: checksum.to_string(),
        size: 9007199254740993,
        email: None,
    }
}

#[test]
fn accepted_attestation_keeps_size_exactly() {
    let rec = validate_backup(request(1, KEEPER, &"A".repeat(64))).expect("accepted");
    assert_eq!(rec.format_version, 1);
    assert_eq!(rec.keeper_id, KEEPER);
    assert_eq!(rec.checksum, "a".repeat(64));
    assert_eq!(rec.size, 9007199254740993u64);
    assert!(rec.contact.is_none());
    assert!(rec.contact_type.is_none());
}

#[test]
fn newer_format_version_is_rejected() {
    let r = validate_backup(request(2, KEEPER, &"A".repeat(64)));
    assert!(matches!(r, Err(ValidationError::FormatVersion)));
    assert_eq!(BackupOutcome::Rejected(ValidationError::FormatVersion).status_code(), 400);
}

#[test]
fn uppercase_and_lowercase_checksums_store_alike() {
    let upper = "ABCDEF0123456789".repeat(4);
    let lower = upper.to_lowercase();
    let a = validate_backup(request(1, KEEPER, &upper)).expect("accepted");
    let b = validate_backup(request(1, KEEPER, &lower)).expect("accepted");
    assert_eq!(a.checksum, b.checksum);
    assert_eq!(a.checksum, lower);
    assert_eq!(a.keeper_id, b.keeper_id);
    assert_eq!(a.size, b.size);
    assert_eq!(a.format_version, b.format_version);
}

#[test]
fn checks_run_in_order() {
    let r = validate_backup(request(0, "nope", "short"));
    assert!(matches!(r, Err(ValidationError::FormatVersion)));
    let r = validate_backup(request(1, "nope", "short"));
    assert!(matches!(r, Err(ValidationError::KeeperId)));
    let r = validate_backup(request(1, KEEPER, "short"));
    assert!(matches!(r, Err(ValidationError::Checksum)));
}

#[test]
fn nil_keeper_is_rejected() {
    let r = validate_backup(request(1, "00000000-0000-0000-0000-000000000000", &"a".repeat(64)));
    assert!(matches!(r, Err(ValidationError::KeeperId)));
}

#[test]
fn email_sets_contact_type() {
    let mut req = request(1, KEEPER, &"b".repeat(64));
    req.email = Some("k@example.org".to_string());
    let rec = validate_backup(req).expect("accepted");
    assert_eq!(rec.contact.as_deref(), Some("k@example.org"));
    assert_eq!(rec.contact_type, Some(ContactType::Email));
    assert_eq!(ContactType::Email.tag(), "email");
}

#[test]
fn outcome_status_codes() {
    assert_eq!(BackupOutcome::Stored.status_code(), 204);
    assert_eq!(BackupOutcome::Rejected(ValidationError::Checksum).status_code(), 400);
    assert_eq!(BackupOutcome::StoreFailed.status_code(), 500);
}
