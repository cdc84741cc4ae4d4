//! Ingestion of a keeper's attestation: checks in a fixed order, the first
//! failure rejects, and only a fully valid attestation yields a record to store.

use vstd::prelude::*;
use vstd::utf8::encode_utf8;
use crate::catalog::opt_text;
use crate::validate::{
    checksum_text, format_version_ok, is_hex_char, is_valid_checksum, is_valid_format_version,
    is_valid_keeper_id, non_nil_uuid_text,
};

verus! {

/// An attestation as a keeper submits it.
pub struct BackupRequest {
    pub format_version: u32,
    pub keeper_id: String,
    pub checksum: String,
    pub size: u64,
    pub email: Option<String>,
}

/// How a keeper can be reached.
#[derive(PartialEq, Eq, Structural, Clone, Copy, Debug)]
pub enum ContactType {
    Email,
}

impl ContactType {
    /// The tag stored with the contact value.
    pub fn tag(&self) -> (r: &'static str)
        ensures
            r@ == "email"@,
    {
        "email"
    }
}

/// An accepted attestation, as it is stored.
pub struct BackupRecord {
    pub format_version: u32,
    pub keeper_id: String,
    pub checksum: String,
    pub size: u64,
    pub contact: Option<String>,
    pub contact_type: Option<ContactType>,
}

pub struct RecordModel {
    pub format_version: u32,
    pub keeper_id: Seq<char>,
    pub checksum: Seq<char>,
    pub size: u64,
    pub contact: Option<Seq<char>>,
    pub contact_type: Option<ContactType>,
}

impl View for BackupRecord {
    type V = RecordModel;

    open spec fn view(&self) -> RecordModel {
        RecordModel {
            format_version: self.format_version,
            keeper_id: self.keeper_id@,
            checksum: self.checksum@,
            size: self.size,
            contact: opt_text(self.contact),
            contact_type: self.contact_type,
        }
    }
}

/// Why an attestation was rejected.
#[derive(PartialEq, Eq, Structural, Clone, Copy, Debug)]
pub enum ValidationError {
    FormatVersion,
    KeeperId,
    Checksum,
}

/// What became of a submitted attestation.
#[derive(PartialEq, Eq, Structural, Clone, Copy, Debug)]
pub enum BackupOutcome {
    Stored,
    Rejected(ValidationError),
    StoreFailed,
}

impl BackupOutcome {
    /// The HTTP status answering the submission: no content, a client error,
    /// or a server error.
    pub fn status_code(&self) -> (r: u16)
        ensures
            r == match self {
                BackupOutcome::Stored => 204u16,
                BackupOutcome::Rejected(_) => 400u16,
                BackupOutcome::StoreFailed => 500u16,
            },
    {
        match self {
            BackupOutcome::Stored => 204,
            BackupOutcome::Rejected(_) => 400,
            BackupOutcome::StoreFailed => 500,
        }
    }
}

pub open spec fn ascii_lower_char(c: char) -> char {
    if 'A' <= c && c <= 'Z' {
        ((c as u32) + 32) as char
    } else {
        c
    }
}

pub open spec fn ascii_lower_text(s: Seq<char>) -> Seq<char> {
    s.map_values(|c: char| ascii_lower_char(c))
}

/// Relies on str::to_ascii_lowercase: A to Z become a to z, every other
/// character is kept.
#[verifier::external_body]
fn to_ascii_lowercase(s: &str) -> (r: String)
    ensures
        r@ == ascii_lower_text(s@),
{
    s.to_ascii_lowercase()
}

/// The first check that the attestation fails, in the order format version,
/// keeper identity, checksum; `None` when it passes them all.
pub open spec fn rejection(format_version: u32, keeper_id: Seq<char>, checksum: Seq<char>) -> Option<
    ValidationError,
> {
    if !format_version_ok(format_version) {
        Some(ValidationError::FormatVersion)
    } else if !non_nil_uuid_text(encode_utf8(keeper_id)) {
        Some(ValidationError::KeeperId)
    } else if !checksum_text(checksum) {
        Some(ValidationError::Checksum)
    } else {
        None
    }
}

pub open spec fn request_rejection(req: BackupRequest) -> Option<ValidationError> {
    rejection(req.format_version, req.keeper_id@, req.checksum@)
}

/// The record stored for an accepted attestation: fields kept verbatim, the
/// checksum in lowercase, and the contact type set exactly when an email is given.
pub open spec fn stored_record(req: BackupRequest) -> RecordModel {
    RecordModel {
        format_version: req.format_version,
        keeper_id: req.keeper_id@,
        checksum: ascii_lower_text(req.checksum@),
        size: req.size,
        contact: opt_text(req.email),
        contact_type: if req.email is Some {
            Some(ContactType::Email)
        } else {
            None
        },
    }
}

/// Validates an attestation and, when it passes, produces the record to store.
pub fn validate_backup(req: BackupRequest) -> (r: Result<BackupRecord, ValidationError>)
    ensures
        r is Ok <==> request_rejection(req) is None,
        r matches Err(e) ==> request_rejection(req) == Some(e),
        r matches Ok(rec) ==> rec@ == stored_record(req),
{
    if !is_valid_format_version(req.format_version) {
        return Err(ValidationError::FormatVersion);
    }
    if !is_valid_keeper_id(req.keeper_id.as_str()) {
        return Err(ValidationError::KeeperId);
    }
    if !is_valid_checksum(req.checksum.as_str()) {
        return Err(ValidationError::Checksum);
    }
    let checksum = to_ascii_lowercase(req.checksum.as_str());
    let contact_type = match &req.email {
        Some(_) => Some(ContactType::Email),
        None => None,
    };
    Ok(
        BackupRecord {
            format_version: req.format_version,
            keeper_id: req.keeper_id,
            checksum,
            size: req.size,
            contact: req.email,
            contact_type,
        },
    )
}

proof fn lemma_lower_keeps_checksum_text(s: Seq<char>)
    ensures
        checksum_text(ascii_lower_text(s)) == checksum_text(s),
        ascii_lower_text(ascii_lower_text(s)) == ascii_lower_text(s),
{
    let l = ascii_lower_text(s);
    assert forall|i: int| 0 <= i < s.len() implies is_hex_char(#[trigger] l[i]) == is_hex_char(
        s[i],
    ) by {
        if 'A' <= s[i] && s[i] <= 'Z' {
            assert((s[i] as u32) + 32 == l[i] as u32);
        }
    }
    if checksum_text(l) {
        assert forall|i: int| 0 <= i < s.len() implies is_hex_char(#[trigger] s[i]) by {
            assert(is_hex_char(l[i]));
        }
    }
    assert forall|i: int| 0 <= i < s.len() implies #[trigger] ascii_lower_char(l[i]) == l[i] by {
        if 'A' <= s[i] && s[i] <= 'Z' {
            assert((s[i] as u32) + 32 == l[i] as u32);
        }
    }
    assert(ascii_lower_text(l) =~= l);
}

/// A checksum submitted in any letter case, and the same checksum in lowercase,
/// are accepted or rejected alike and, when accepted, stored as the same record.
pub proof fn lemma_checksum_case_normalized(upper: BackupRequest, lower: BackupRequest)
    requires
        lower.checksum@ == ascii_lower_text(upper.checksum@),
        lower.format_version == upper.format_version,
        lower.keeper_id@ == upper.keeper_id@,
        lower.size == upper.size,
        opt_text(lower.email) == opt_text(upper.email),
    ensures
        request_rejection(upper) == request_rejection(lower),
        request_rejection(upper) is None ==> stored_record(upper) == stored_record(lower),
{
    lemma_lower_keeps_checksum_text(upper.checksum@);
    assert(lower.email is Some == upper.email is Some);
}

} // verus!
