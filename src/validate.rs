//! Syntactic validation of attestation fields.

use vstd::prelude::*;
use vstd::string::StringSliceAdditionalSpecFns;
use vstd::utf8::is_ascii_chars;

verus! {

/// The newest attestation format this library understands.
pub const CURRENT_FORMAT_VERSION: u32 = 1;

/// Number of bytes in a SHA-256 digest.
pub const CHECKSUM_BYTES: usize = 32;

/// An ASCII hexadecimal digit, in either case.
pub open spec fn is_hex_byte(b: u8) -> bool {
    (48 <= b && b <= 57) || (97 <= b && b <= 102) || (65 <= b && b <= 70)
}

/// A character that is an ASCII hexadecimal digit, in either case.
pub open spec fn is_hex_char(c: char) -> bool {
    ('0' <= c && c <= '9') || ('a' <= c && c <= 'f') || ('A' <= c && c <= 'F')
}

/// Text made of exactly `2 * CHECKSUM_BYTES` hexadecimal digits.
pub open spec fn checksum_text(s: Seq<char>) -> bool {
    &&& s.len() == 2 * CHECKSUM_BYTES
    &&& forall|i: int| 0 <= i < s.len() ==> is_hex_char(#[trigger] s[i])
}

pub open spec fn format_version_ok(v: u32) -> bool {
    0 < v && v <= CURRENT_FORMAT_VERSION
}

/// Accepts exactly the versions `1..=CURRENT_FORMAT_VERSION`; newer versions are
/// rejected rather than read on a best-effort basis.
pub fn is_valid_format_version(format_version: u32) -> (r: bool)
    ensures
        r == format_version_ok(format_version),
{
    format_version > 0 && format_version <= CURRENT_FORMAT_VERSION
}

fn hex_byte(b: u8) -> (r: bool)
    ensures
        r == is_hex_byte(b),
{
    (b >= 48 && b <= 57) || (b >= 97 && b <= 102) || (b >= 65 && b <= 70)
}

/// Accepts a hex-encoded 256-bit digest: 64 hexadecimal digits of either case.
pub fn is_valid_checksum(checksum: &str) -> (r: bool)
    ensures
        r == checksum_text(checksum@),
{
    if !checksum.is_ascii() {
        assert(!checksum_text(checksum@)) by {
            let i = choose|i: int| 0 <= i < checksum@.len() && !('\0' <= #[trigger] checksum@[i] <= '\u{7f}');
            assert(!is_hex_char(checksum@[i]));
        }
        return false;
    }
    let bytes = checksum.as_bytes();
    proof {
        vstd::string::is_ascii_spec_bytes(checksum);
    }
    assert(bytes@.len() == checksum@.len());
    if bytes.len() != CHECKSUM_BYTES * 2 {
        return false;
    }
    let mut i: usize = 0;
    while i < bytes.len()
        invariant
            bytes@ == checksum.spec_bytes(),
            bytes@.len() == checksum@.len(),
            is_ascii_chars(checksum@),
            forall|k: int| 0 <= k < bytes@.len() ==> #[trigger] bytes@[k] == checksum@[k] as u8,
            0 <= i <= bytes@.len(),
            forall|k: int| 0 <= k < i ==> is_hex_char(#[trigger] checksum@[k]),
        decreases bytes@.len() - i,
    {
        let b = bytes[i];
        if !hex_byte(b) {
            assert(!is_hex_char(checksum@[i as int]));
            return false;
        }
        assert(is_hex_char(checksum@[i as int]));
        i = i + 1;
    }
    true
}

/// The value of a hexadecimal digit.
pub open spec fn hex_value(b: u8) -> int {
    if 48 <= b && b <= 57 {
        b - 48
    } else if 97 <= b && b <= 102 {
        b - 87
    } else {
        b - 55
    }
}

/// The 8-4-4-4-12 form: 36 bytes, hyphens at offsets 8, 13, 18 and 23, hex elsewhere.
pub open spec fn hyphenated_uuid(b: Seq<u8>) -> bool {
    &&& b.len() == 36
    &&& forall|i: int|
        0 <= i < 36 ==> if i == 8 || i == 13 || i == 18 || i == 23 {
            #[trigger] b[i] == 45
        } else {
            is_hex_byte(b[i])
        }
}

/// The 32 digits of a hyphenated UUID, hyphens removed.
pub open spec fn hyphenated_digits(b: Seq<u8>) -> Seq<u8> {
    b.subrange(0, 8) + b.subrange(9, 13) + b.subrange(14, 18) + b.subrange(19, 23) + b.subrange(
        24,
        36,
    )
}

pub open spec fn ascii_lower_byte(b: u8) -> u8 {
    if 65 <= b && b <= 90 {
        (b + 32) as u8
    } else {
        b
    }
}

/// `urn:uuid:` in any letter case.
pub open spec fn urn_prefix(b: Seq<u8>) -> bool {
    &&& b.len() >= 9
    &&& forall|i: int|
        0 <= i < 9 ==> ascii_lower_byte(#[trigger] b[i]) == seq![
            117u8,
            114u8,
            110u8,
            58u8,
            117u8,
            117u8,
            105u8,
            100u8,
            58u8,
        ][i]
}

/// The 32 hex digits of a UUID written in one of its accepted text forms (simple,
/// hyphenated, braced, URN), or `None` when the text is in none of them.
pub open spec fn uuid_digits(b: Seq<u8>) -> Option<Seq<u8>> {
    if b.len() == 32 {
        if forall|i: int| 0 <= i < 32 ==> is_hex_byte(#[trigger] b[i]) {
            Some(b)
        } else {
            None
        }
    } else if b.len() == 36 {
        if hyphenated_uuid(b) {
            Some(hyphenated_digits(b))
        } else {
            None
        }
    } else if b.len() == 38 {
        if b[0] == 123 && b[37] == 125 && hyphenated_uuid(b.subrange(1, 37)) {
            Some(hyphenated_digits(b.subrange(1, 37)))
        } else {
            None
        }
    } else if b.len() == 45 {
        if urn_prefix(b) && hyphenated_uuid(b.subrange(9, 45)) {
            Some(hyphenated_digits(b.subrange(9, 45)))
        } else {
            None
        }
    } else {
        None
    }
}

/// The sixteen bytes spelled by 32 hex digits, most significant nibble first.
pub open spec fn uuid_value(d: Seq<u8>) -> Seq<u8> {
    Seq::new(16, |k: int| (hex_value(d[2 * k]) * 16 + hex_value(d[2 * k + 1])) as u8)
}

/// A UUID in an accepted text form whose digits are not all zero.
pub open spec fn non_nil_uuid_text(b: Seq<u8>) -> bool {
    match uuid_digits(b) {
        Some(d) => exists|i: int| 0 <= i < d.len() && #[trigger] d[i] != 48,
        None => false,
    }
}

/// Relies on uuid::Uuid::try_parse (read out with Uuid::as_bytes): it accepts the
/// simple, hyphenated, braced and URN forms, hex digits in either case, and yields
/// the bytes those digits spell.
#[verifier::external_body]
fn parse_uuid(s: &str) -> (r: Option<Vec<u8>>)
    ensures
        match uuid_digits(s.spec_bytes()) {
            Some(d) => r matches Some(v) && v@ == uuid_value(d),
            None => r is None,
        },
{
    match uuid::Uuid::try_parse(s) {
        Ok(u) => Some(u.as_bytes().to_vec()),
        Err(_) => None,
    }
}

proof fn lemma_uuid_digits_hex(b: Seq<u8>)
    requires
        uuid_digits(b) is Some,
    ensures
        uuid_digits(b)->Some_0.len() == 32,
        forall|i: int|
            0 <= i < 32 ==> is_hex_byte(#[trigger] uuid_digits(b)->Some_0[i]),
{
    let d = uuid_digits(b)->Some_0;
    if b.len() != 32 {
        let h = if b.len() == 36 {
            b
        } else if b.len() == 38 {
            b.subrange(1, 37)
        } else {
            b.subrange(9, 45)
        };
        assert(d =~= hyphenated_digits(h));
        assert forall|i: int| 0 <= i < 32 implies is_hex_byte(#[trigger] d[i]) by {
            let j = if i < 8 {
                i
            } else if i < 12 {
                i + 1
            } else if i < 16 {
                i + 2
            } else if i < 20 {
                i + 3
            } else {
                i + 4
            };
            assert(d[i] == h[j]);
        }
    }
}

/// Accepts a keeper identity: a UUID of any version or variant, other than the
/// nil UUID.
pub fn is_valid_keeper_id(keeper_id: &str) -> (r: bool)
    ensures
        r == non_nil_uuid_text(keeper_id.spec_bytes()),
{
    let parsed = parse_uuid(keeper_id);
    match parsed {
        None => false,
        Some(v) => {
            let ghost d = uuid_digits(keeper_id.spec_bytes())->Some_0;
            proof {
                lemma_uuid_digits_hex(keeper_id.spec_bytes());
            }
            let mut k: usize = 0;
            while k < v.len()
                invariant
                    v@ == uuid_value(d),
                    uuid_digits(keeper_id.spec_bytes()) == Some(d),
                    d.len() == 32,
                    forall|i: int| 0 <= i < 32 ==> is_hex_byte(#[trigger] d[i]),
                    0 <= k <= 16,
                    forall|j: int| 0 <= j < 2 * k ==> #[trigger] d[j] == 48,
                decreases 16 - k,
            {
                let ghost hi = hex_value(d[2 * k as int]);
                let ghost lo = hex_value(d[2 * k as int + 1]);
                assert(is_hex_byte(d[2 * k as int]) && is_hex_byte(d[2 * k as int + 1]));
                assert(0 <= hi < 16 && 0 <= lo < 16);
                assert(v@[k as int] == (hi * 16 + lo) as u8);
                if v[k] != 0 {
                    assert(hi != 0 || lo != 0);
                    proof {
                        let dd = uuid_digits(keeper_id.spec_bytes())->Some_0;
                        assert(dd == d);
                        let j = if d[2 * k as int] != 48 {
                            2 * k as int
                        } else {
                            2 * k as int + 1
                        };
                        assert(0 <= j < dd.len() && dd[j] != 48);
                    }
                    return true;
                }
                assert(hi * 16 + lo == 0);
                k = k + 1;
            }
            assert(!(exists|i: int| 0 <= i < d.len() && #[trigger] d[i] != 48));
            false
        },
    }
}

} // verus!
