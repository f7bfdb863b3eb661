//! Memory-hard password hashing and verification.
//!
//! A password is hashed under a fresh random salt with Argon2 (default
//! parameters); the encoded result embeds the algorithm identifier, its
//! parameters, the salt, and the digest, so later verification needs no
//! side channel. Verification recomputes the digest from the parameters
//! embedded in the encoded string and compares in constant time, returning
//! false on any parse or computational failure rather than failing.

use vstd::prelude::*;

use argon2::password_hash::rand_core::OsRng;
use argon2::password_hash::{PasswordHash, PasswordHasher, PasswordVerifier, Salt, SaltString};
use argon2::Argon2;

use crate::errors::AuthError;

verus! {

/// Longest password, in characters, on which hashing is promised to
/// succeed: UTF-8 spends at most four bytes per character, so this many
/// characters stay within Argon2's limit of `0xFFFFFFFF` password bytes.
pub const MAX_PASSWORD_CHARS: usize = 0x3FFFFFFF;

/// The PHC-encoded string that Argon2 with default parameters derives from
/// a password and a B64 salt; a function of the two alone.
pub uninterp spec fn encoded_hash_of(password: Seq<char>, salt: Seq<char>) -> Seq<char>;

/// Whether Argon2 verification accepts `password` against the PHC-encoded
/// string `encoded`; false whenever `encoded` does not parse. A function
/// of the two alone.
pub uninterp spec fn hash_matches(password: Seq<char>, encoded: Seq<char>) -> bool;

/// The salt strings the Argon2 hashing path accepts: valid B64 of 4 to 64
/// characters decoding to 8 to 64 bytes. A function of the string alone.
pub uninterp spec fn argon2_salt_ok(salt: Seq<char>) -> bool;

/// The salt component that PHC parsing (`password_hash::PasswordHash::new`)
/// reads back out of an encoded hash string; a function of the string
/// alone.
pub uninterp spec fn embedded_salt_of(encoded: Seq<char>) -> Seq<char>;

/// Relies on `password_hash::SaltString::generate` over `OsRng`: a freshly
/// drawn 16-byte salt, B64-encoded as 22 characters, which the hashing
/// path accepts. The value is random; nothing relates one call to another.
#[verifier::external_body]
fn generate_salt() -> (salt: String)
    ensures
        salt@.len() == 22,
        argon2_salt_ok(salt@),
{
    SaltString::generate(&mut OsRng).as_str().to_string()
}

/// Relies on `argon2::Argon2::hash_password` (reached through
/// `password_hash::Salt::from_b64`): with the fixed default parameters the
/// encoded result is a function of the password and the salt alone;
/// `verify_password` accepts that result against the same password, since
/// it recomputes the digest from the embedded salt and parameters and
/// compares it with the embedded digest; and the salt is embedded in the
/// PHC string as given, so parsing reads it back. Hashing succeeds on
/// every accepted salt and every password within Argon2's length limit:
/// its only other failure is allocation, which aborts rather than errs.
#[verifier::external_body]
fn argon2_hash(password: &str, salt: &str) -> (r: Option<String>)
    ensures
        match r {
            Some(encoded) => encoded@ == encoded_hash_of(password@, salt@) && hash_matches(
                password@,
                encoded@,
            ) && embedded_salt_of(encoded@) == salt@,
            None => true,
        },
        argon2_salt_ok(salt@) && password@.len() <= MAX_PASSWORD_CHARS ==> r is Some,
{
    let salt = match Salt::from_b64(salt) {
        Ok(s) => s,
        Err(_) => return None,
    };
    match Argon2::default().hash_password(password.as_bytes(), salt) {
        Ok(h) => Some(h.to_string()),
        Err(_) => None,
    }
}

/// Relies on `password_hash::PasswordHash::new` and
/// `argon2::Argon2::verify_password`: deterministic in the password and the
/// encoded string, accepting on digest equality and answering false on any
/// parse or verification failure.
#[verifier::external_body]
fn argon2_verify(password: &str, encoded: &str) -> (r: bool)
    ensures
        r == hash_matches(password@, encoded@),
{
    match PasswordHash::new(encoded) {
        Ok(parsed) => Argon2::default().verify_password(password.as_bytes(), &parsed).is_ok(),
        Err(_) => false,
    }
}

/// Hash `password` under a fresh random salt, yielding the salt and the
/// self-describing encoded hash, which verification accepts against the
/// same password and which embeds that very salt. Success is owed for
/// every password within Argon2's length limit; a hashing failure is an
/// internal error, never a weak hash.
pub fn hash_password(password: &str) -> (r: Result<(String, String), AuthError>)
    ensures
        match r {
            Ok((salt, encoded)) => encoded@ == encoded_hash_of(password@, salt@) && hash_matches(
                password@,
                encoded@,
            ) && embedded_salt_of(encoded@) == salt@ && salt@.len() == 22,
            Err(e) => e == AuthError::InternalError,
        },
        password@.len() <= MAX_PASSWORD_CHARS ==> r is Ok,
{
    let salt = generate_salt();
    match argon2_hash(password, salt.as_str()) {
        Some(encoded) => Ok((salt, encoded)),
        None => Err(AuthError::InternalError),
    }
}

/// Whether `password` matches the PHC-encoded hash `encoded`; false on any
/// malformed encoding.
pub fn verify_password(password: &str, encoded: &str) -> (r: bool)
    ensures
        r == hash_matches(password@, encoded@),
{
    argon2_verify(password, encoded)
}

} // verus!
