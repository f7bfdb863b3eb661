use auth_core::hasher::{hash_password, verify_password};

use argon2::password_hash::{PasswordHash, PasswordVerifier};
use argon2::Argon2;

#[test]
fn hash_twice_gives_distinct_hashes_and_both_verify() {
    let (salt1, hash1) = hash_password("pw123").expect("hashing failed");
    let (salt2, hash2) = hash_password("pw123").expect("hashing failed");
    assert_ne!(salt1, salt2);
    assert_ne!(hash1, hash2);
    assert!(verify_password("pw123", &hash1));
    assert!(verify_password("pw123", &hash2));
}

#[test]
fn verify_rejects_wrong_password() {
    let (_salt, hash) = hash_password("pw123").expect("hashing failed");
    assert!(!verify_password("pw124", &hash));
    assert!(!verify_password("", &hash));
    assert!(!verify_password("PW123", &hash));
}

#[test]
fn verify_rejects_malformed_encoding() {
    assert!(!verify_password("pw123", ""));
    assert!(!verify_password("pw123", "not-a-phc-string"));
    assert!(!verify_password("pw123", "$argon2id$broken"));
}

#[test]
fn salt_is_embedded_in_encoded_hash() {
    let (salt, hash) = hash_password("pw123").expect("hashing failed");
    assert_eq!(salt.len(), 22);
    assert!(hash.contains(&salt));
}

#[test]
fn encoded_hash_is_a_real_phc_string() {
    // The encoded result must be verifiable by Argon2 itself, not merely by
    // this library's own wrapper.
    let (_salt, hash) = hash_password("pw123").expect("hashing failed");
    let parsed = PasswordHash::new(&hash).expect("not a PHC string");
    assert!(Argon2::default()
        .verify_password(b"pw123", &parsed)
        .is_ok());
    assert!(Argon2::default()
        .verify_password(b"other", &parsed)
        .is_err());
}
