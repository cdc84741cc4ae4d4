use keeper_attest::canonical::canonical_snapshot;
use keeper_attest::catalog::{ArtifactResponse, FileResponse, LinkResponse};
use keeper_attest::checksum::{compute_backup_checksum, digest_hex, sorted_snapshot};
use keeper_attest::metadata::ArtifactMetadata;

fn record(id: &str, file_hash: &str) -> ArtifactResponse {
    ArtifactResponse {
        id: id.to_string(),
        title: format!("Title {}", id),
        summary: "Sum".to_string(),
        description: None,
        url: format!("https://x.test/{}", id),
        files: vec![FileResponse {
            name: "Main".to_string(),
            filename: "main.pdf".to_string(),
            media_type: Some("application/pdf".to_string()),
            hash: file_hash.to_string(),
            hash_algorithm: "sha256".to_string(),
            url: "https://f.test/main.pdf".to_string(),
            lang: None,
            hidden: false,
        }],
        links: vec![LinkResponse {
            name: "Home".to_string(),
            url: "https://h.test".to_string(),
        }],
        people: vec!["Ann".to_string()],
        identities: vec!["ace".to_string()],
        from_year: 1990,
        to_year: Some(2001),
        decades: vec![1990, 2000],
        collections: vec!["zines".to_string()],
    }
}

fn bare(id: &str) -> ArtifactResponse {
    ArtifactResponse {
        id: id.to_string(),
        title: "t".to_string(),
        summary: "s".to_string(),
        description: None,
        url: "u".to_string(),
        files: vec![],
        links: vec![],
        people: vec![],
        identities: vec![],
        from_year: 2000,
        to_year: None,
        decades: vec![],
        collections: vec![],
    }
}

fn checksum(records: &[ArtifactResponse]) -> String {
    match compute_backup_checksum(records) {
        Ok(h) => h,
        Err(_) => panic!("serialization failed"),
    }
}

#[test]
fn canonical_form_of_one_record() {
    let sorted = sorted_snapshot(&[record("a", "abc123")]);
    let bytes = canonical_snapshot(&sorted);
    let expected = "[{\"collections\":[\"zines\"],\"decades\":[1990,2000],\"description\":null,\
        \"files\":[{\"filename\":\"main.pdf\",\"hash\":\"abc123\",\"hash_algorithm\":\"sha256\",\
        \"hidden\":false,\"lang\":null,\"media_type\":\"application/pdf\",\"name\":\"Main\",\
        \"url\":\"https://f.test/main.pdf\"}],\"from_year\":1990,\"id\":\"a\",\
        \"identities\":[\"ace\"],\"links\":[{\"name\":\"Home\",\"url\":\"https://h.test\"}],\
        \"people\":[\"Ann\"],\"summary\":\"Sum\",\"title\":\"Title a\",\"to_year\":2001,\
        \"url\":\"https://x.test/a\"}]";
    assert_eq!(String::from_utf8(bytes).unwrap(), expected);
}

#[test]
fn canonical_form_escapes_strings() {
    let mut r = record("q", "h");
    r.title = "Line\nbreak \"quoted\" \\ tab\t \u{1} \u{e9}".to_string();
    r.files = vec![];
    let bytes = canonical_snapshot(&vec![ArtifactMetadata::from_response(&r)]);
    let text = String::from_utf8(bytes).unwrap();
    assert!(text.contains("\"title\":\"Line\\nbreak \\\"quoted\\\" \\\\ tab\\t \\u0001 \u{e9}\""));
    assert!(text.contains("\"files\":[]"));
}

#[test]
fn digest_of_one_record() {
    assert_eq!(
        checksum(&[record("a", "abc123")]),
        "a53fbc9bfabd3beef7bb078321d4748e94a7609a2080d5d75e6c0f8325a8fa65"
    );
}

#[test]
fn digest_of_empty_catalog() {
    assert_eq!(
        checksum(&[]),
        "4f53cda18c2baa0c0354bb5f9a3ecbe5ed12ab4d8e11ba873c2f11161202b945"
    );
    assert_eq!(digest_hex(b"[]"), checksum(&[]));
}

#[test]
fn digest_ignores_input_order() {
    let forward = checksum(&[record("a", "abc123"), record("b", "abc123")]);
    let backward = checksum(&[record("b", "abc123"), record("a", "abc123")]);
    assert_eq!(forward, backward);
    assert_eq!(
        forward,
        "b2ed5decac61bdacde53b1c1f6ee0615a737f55a3ece368e5daeedc18ba3ea1f"
    );
}

#[test]
fn digest_is_repeatable() {
    let first = checksum(&[record("b", "x"), record("a", "y")]);
    let second = checksum(&[record("b", "x"), record("a", "y")]);
    assert_eq!(first, second);
}

#[test]
fn digest_changes_with_a_file_hash() {
    let before = checksum(&[record("b", "abc123"), record("a", "abc123")]);
    let after = checksum(&[record("b", "abc123"), record("a", "abc124")]);
    assert_ne!(before, after);
    assert_eq!(
        after,
        "a4ef010bd3ab019a69c51e27dd5b31b57e5deb162ec6011cc5622314c2631c02"
    );
}

#[test]
fn digest_is_lowercase_hex() {
    let h = checksum(&[record("a", "abc123")]);
    assert_eq!(h.len(), 64);
    assert!(h.chars().all(|c| c.is_ascii_digit() || ('a'..='f').contains(&c)));
}

#[test]
fn snapshot_sorts_by_identifier_bytes() {
    let sorted = sorted_snapshot(&[
        record("b", "1"),
        record("B", "2"),
        record("a", "3"),
        record("ab", "4"),
        record("\u{e9}", "5"),
    ]);
    let ids: Vec<&str> = sorted.iter().map(|m| m.id.as_str()).collect();
    assert_eq!(ids, vec!["B", "a", "ab", "b", "\u{e9}"]);
}

#[test]
fn snapshot_keeps_order_of_equal_identifiers() {
    let sorted = sorted_snapshot(&[record("a", "first"), record("0", "z"), record("a", "second")]);
    let hashes: Vec<&str> = sorted.iter().map(|m| m.files[0].hash.as_str()).collect();
    assert_eq!(hashes, vec!["z", "first", "second"]);
}

#[test]
fn digest_of_bare_record() {
    let canonical = canonical_snapshot(&sorted_snapshot(&[bare("a")]));
    assert_eq!(
        String::from_utf8(canonical).unwrap(),
        "[{\"collections\":[],\"decades\":[],\"description\":null,\"files\":[],\
        \"from_year\":2000,\"id\":\"a\",\"identities\":[],\"links\":[],\"people\":[],\
        \"summary\":\"s\",\"title\":\"t\",\"to_year\":null,\"url\":\"u\"}]"
    );
    assert_eq!(
        checksum(&[bare("a")]),
        "b6fa18e2d6cc6568910e21bf2a328a37d14adad23f10e15968a69969320391d9"
    );
}
