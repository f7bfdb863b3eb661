//! The failure taxonomy of the authentication core, with the HTTP status
//! and client-facing message each failure maps to at the service boundary.
//!
//! Unknown-username and wrong-password failures are deliberately merged into
//! one `InvalidCredentials` value so that a caller cannot learn whether a
//! username exists.

use vstd::prelude::*;

verus! {

/// Why an authentication operation failed.
#[derive(Clone, Copy, Debug, PartialEq, Eq, Structural)]
pub enum AuthError {
    /// A request field is missing or empty.
    ValidationError,
    /// The username is already registered.
    UsernameTaken,
    /// Unknown username or wrong password; the two are indistinguishable.
    InvalidCredentials,
    /// The bearer token does not verify or has expired.
    InvalidOrExpiredToken,
    /// The backing credential store is unavailable.
    StorageError,
    /// Hashing or signing failed inside the service.
    InternalError,
}

impl AuthError {
    /// The HTTP status the surrounding layer reports for this failure.
    pub open spec fn spec_status_code(self) -> u16 {
        match self {
            AuthError::ValidationError => 400,
            AuthError::UsernameTaken => 409,
            AuthError::InvalidCredentials => 401,
            AuthError::InvalidOrExpiredToken => 401,
            AuthError::StorageError => 500,
            AuthError::InternalError => 500,
        }
    }

    /// The HTTP status the surrounding layer reports for this failure.
    pub fn status_code(&self) -> (code: u16)
        ensures
            code == self.spec_status_code(),
    {
        match self {
            AuthError::ValidationError => 400,
            AuthError::UsernameTaken => 409,
            AuthError::InvalidCredentials => 401,
            AuthError::InvalidOrExpiredToken => 401,
            AuthError::StorageError => 500,
            AuthError::InternalError => 500,
        }
    }

    /// The message body the surrounding layer sends for this failure.
    /// Unknown-username and wrong-password cases share one message.
    pub open spec fn spec_message(self) -> Seq<char> {
        match self {
            AuthError::ValidationError => "Username and password must not be empty"@,
            AuthError::UsernameTaken => "Username already taken"@,
            AuthError::InvalidCredentials => "Invalid username or password"@,
            AuthError::InvalidOrExpiredToken => "Invalid or expired token"@,
            AuthError::StorageError => "Storage error"@,
            AuthError::InternalError => "Internal error"@,
        }
    }

    /// The message body the surrounding layer sends for this failure.
    pub fn message(&self) -> (m: &'static str)
        ensures
            m@ == self.spec_message(),
    {
        match self {
            AuthError::ValidationError => "Username and password must not be empty",
            AuthError::UsernameTaken => "Username already taken",
            AuthError::InvalidCredentials => "Invalid username or password",
            AuthError::InvalidOrExpiredToken => "Invalid or expired token",
            AuthError::StorageError => "Storage error",
            AuthError::InternalError => "Internal error",
        }
    }
}

} // verus!
