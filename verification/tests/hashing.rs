use minipost::hasher::{hash_password, new_hash_password, verify_password};
use sha2::{Digest, Sha256};

#[test]
fn round_trip_verifies() {
    let digest = new_hash_password("correct horse battery staple".to_string());
    assert!(verify_password(
        "correct horse battery staple".to_string(),
        digest
    ));
}

#[test]
fn round_trip_verifies_empty_password() {
    let digest = new_hash_password(String::new());
    assert!(verify_password(String::new(), digest));
}

#[test]
fn wrong_password_fails() {
    let digest = new_hash_password("pw2".to_string());
    assert!(!verify_password("pw1".to_string(), digest));
}

#[test]
fn known_answer_matches_sha256() {
    // SHA-256 of "abc" (salt "a", password "bc") is a published test vector.
    let digest = hash_password("a".to_string(), "bc".to_string());
    assert_eq!(
        digest,
        "a&ba7816bf8f01cfea414140de5dae2223b00361a396177a9cb410ff61f20015ad"
    );
    let recomputed = format!("a&{:x}", Sha256::digest("abc".as_bytes()));
    assert_eq!(digest, recomputed);
}

#[test]
fn digest_without_separator_fails() {
    assert!(!verify_password("pw".to_string(), "no separator here".to_string()));
    assert!(!verify_password("pw".to_string(), String::new()));
}

#[test]
fn digest_with_two_separators_fails() {
    let mut digest = new_hash_password("pw".to_string());
    digest.push('&');
    assert!(!verify_password("pw".to_string(), digest));
}

#[test]
fn corrupted_digest_fails_without_error() {
    let digest = new_hash_password("pw".to_string());
    let corrupted: String = digest.chars().rev().collect();
    assert!(!verify_password("pw".to_string(), corrupted));
    assert!(!verify_password("pw".to_string(), "é&ü".to_string()));
}

#[test]
fn generated_digest_shape() {
    let digest = new_hash_password("pw".to_string());
    let parts: Vec<&str> = digest.split('&').collect();
    assert_eq!(parts.len(), 2);
    assert_eq!(parts[0].len(), 12);
    assert!(parts[0].chars().all(|c| c.is_ascii_alphanumeric()));
    assert_eq!(parts[1].len(), 64);
    assert!(parts[1]
        .chars()
        .all(|c| c.is_ascii_hexdigit() && !c.is_ascii_uppercase()));
}

#[test]
fn salts_differ_between_hashes() {
    let d1 = new_hash_password("pw".to_string());
    let d2 = new_hash_password("pw".to_string());
    // Each digest still verifies even though the salts (almost surely) differ.
    assert!(verify_password("pw".to_string(), d1));
    assert!(verify_password("pw".to_string(), d2));
}
