//! Signup, login, and token authorization.
//!
//! `AuthService` orchestrates the password hasher, the credential store,
//! and the token service: a signup hashes the password and claims the
//! username atomically in the store; a login fetches the record, checks the
//! password, and mints a token; authorization validates a bearer token and
//! yields the acting subject. Unknown-username and wrong-password logins
//! fail identically, so callers cannot enumerate accounts.

use vstd::prelude::*;

use crate::errors::AuthError;
use crate::hasher::{
    embedded_salt_of, encoded_hash_of, hash_matches, hash_password, verify_password,
    MAX_PASSWORD_CHARS,
};
use crate::store::{contains_username, stored_record, CredentialRecord, CredentialStore};
use crate::token::{claims_outcome, issued_claims, verified_claims, TokenService};

verus! {

/// Seconds a freshly minted token stays valid by default: one hour.
pub const DEFAULT_TOKEN_EXPIRATION_SECS: u64 = 60 * 60;

/// HTTP status the surrounding layer reports for a successful signup.
pub const SIGNUP_SUCCESS_STATUS: u16 = 201;

/// HTTP status the surrounding layer reports for a successful login.
pub const LOGIN_SUCCESS_STATUS: u16 = 200;

/// Raw credentials as a signup or login request carries them.
pub struct SignupForm {
    pub username: String,
    pub password: String,
}

/// What a successful signup or login returns: the authenticated username
/// and a bearer token bound to it.
#[derive(Debug, PartialEq, Eq)]
pub struct AuthResponse {
    pub username: String,
    pub token: String,
}

/// Orchestrates hashing, storage, and tokens. Holds the process-wide
/// signing key (configuration established at startup) and the default
/// token lifetime as a named value, not a constant baked into call sites.
pub struct AuthService {
    tokens: TokenService,
    ttl: u64,
}

impl AuthService {
    /// The signing key's bytes.
    pub closed spec fn key_bytes(&self) -> Seq<u8> {
        self.tokens.key_bytes()
    }

    /// Seconds a token minted by this service stays valid.
    pub closed spec fn token_ttl(&self) -> u64 {
        self.ttl
    }

    /// A service signing with `key` and the default token lifetime.
    pub fn new(key: Vec<u8>) -> (s: Self)
        ensures
            s.key_bytes() == key@,
            s.token_ttl() == DEFAULT_TOKEN_EXPIRATION_SECS,
    {
        AuthService { tokens: TokenService::new(key), ttl: DEFAULT_TOKEN_EXPIRATION_SECS }
    }

    /// A service signing with `key` whose tokens live `ttl` seconds.
    pub fn with_ttl(key: Vec<u8>, ttl: u64) -> (s: Self)
        ensures
            s.key_bytes() == key@,
            s.token_ttl() == ttl,
    {
        AuthService { tokens: TokenService::new(key), ttl }
    }

    /// Register a new identity: validate that neither field is empty, hash
    /// the password under a fresh salt, mint a token, and claim the
    /// username in the store. A taken username fails with `UsernameTaken`
    /// and changes nothing; a hashing failure (possible only beyond
    /// Argon2's password-length limit) fails with `InternalError` and
    /// changes nothing. For any shorter password with nonempty fields, a
    /// fresh username is owed its success and a taken one its conflict.
    pub fn signup(&self, store: &mut CredentialStore, form: &SignupForm, now: u64) -> (r: Result<
        AuthResponse,
        AuthError,
    >)
        requires
            old(store).wf(),
            now + self.token_ttl() <= u64::MAX,
        ensures
            final(store).wf(),
            match r {
                Ok(resp) => {
                    &&& form.username@.len() > 0
                    &&& form.password@.len() > 0
                    &&& !contains_username(old(store)@, form.username@)
                    &&& final(store)@.len() == old(store)@.len() + 1
                    &&& final(store)@.drop_last() == old(store)@
                    &&& final(store)@.last().username@ == form.username@
                    &&& final(store)@.last().password_hash@ == encoded_hash_of(
                        form.password@,
                        final(store)@.last().salt@,
                    )
                    &&& hash_matches(form.password@, final(store)@.last().password_hash@)
                    &&& embedded_salt_of(final(store)@.last().password_hash@)
                        == final(store)@.last().salt@
                    &&& resp.username@ == form.username@
                    &&& verified_claims(self.key_bytes(), resp.token@) == Some(
                        issued_claims(
                            form.username@,
                            (now + self.token_ttl()) as u64,
                        ),
                    )
                },
                Err(e) => {
                    &&& final(store)@ == old(store)@
                    &&& (e == AuthError::ValidationError <==> (form.username@.len() == 0
                        || form.password@.len() == 0))
                    &&& (e == AuthError::UsernameTaken ==> contains_username(
                        old(store)@,
                        form.username@,
                    ) && form.username@.len() > 0 && form.password@.len() > 0)
                    &&& (e == AuthError::InternalError ==> form.username@.len() > 0
                        && form.password@.len() > MAX_PASSWORD_CHARS)
                    &&& (e == AuthError::ValidationError || e == AuthError::UsernameTaken || e
                        == AuthError::InternalError)
                },
            },
            (form.username@.len() > 0 && 0 < form.password@.len() <= MAX_PASSWORD_CHARS
                && !contains_username(old(store)@, form.username@)) ==> r is Ok,
            (form.username@.len() > 0 && 0 < form.password@.len() <= MAX_PASSWORD_CHARS
                && contains_username(old(store)@, form.username@)) ==> r == Err::<
                AuthResponse,
                AuthError,
            >(AuthError::UsernameTaken),
    {
        if form.username.as_str().is_empty() || form.password.as_str().is_empty() {
            return Err(AuthError::ValidationError);
        }
        let (salt, encoded) = match hash_password(form.password.as_str()) {
            Ok(p) => p,
            Err(e) => {
                return Err(e);
            },
        };
        let token = self.tokens.issue_jwt(form.username.as_str(), self.ttl, now);
        let rec = CredentialRecord {
            username: form.username.clone(),
            salt,
            password_hash: encoded,
        };
        match store.insert(rec) {
            Ok(()) => Ok(AuthResponse { username: form.username.clone(), token }),
            Err(_) => Err(AuthError::UsernameTaken),
        }
    }

    /// Authenticate an existing identity and mint a token for it. Valid
    /// credentials are owed their success; an unknown username and a wrong
    /// password fail with the same `InvalidCredentials`, and nothing else
    /// can fail.
    pub fn login(&self, store: &CredentialStore, form: &SignupForm, now: u64) -> (r: Result<
        AuthResponse,
        AuthError,
    >)
        requires
            store.wf(),
            now + self.token_ttl() <= u64::MAX,
        ensures
            match r {
                Ok(resp) => {
                    &&& contains_username(store@, form.username@)
                    &&& hash_matches(
                        form.password@,
                        stored_record(store@, form.username@).password_hash@,
                    )
                    &&& resp.username@ == form.username@
                    &&& verified_claims(self.key_bytes(), resp.token@) == Some(
                        issued_claims(
                            form.username@,
                            (now + self.token_ttl()) as u64,
                        ),
                    )
                },
                Err(e) => {
                    &&& e == AuthError::InvalidCredentials
                    &&& !(contains_username(store@, form.username@) && hash_matches(
                        form.password@,
                        stored_record(store@, form.username@).password_hash@,
                    ))
                },
            },
            (contains_username(store@, form.username@) && hash_matches(
                form.password@,
                stored_record(store@, form.username@).password_hash@,
            )) ==> r is Ok,
    {
        let rec = match store.find_by_username(form.username.as_str()) {
            Some(rec) => rec,
            None => {
                return Err(AuthError::InvalidCredentials);
            },
        };
        if !verify_password(form.password.as_str(), rec.password_hash.as_str()) {
            return Err(AuthError::InvalidCredentials);
        }
        let token = self.tokens.issue_jwt(form.username.as_str(), self.ttl, now);
        Ok(AuthResponse { username: form.username.clone(), token })
    }

    /// Validate a bearer token at clock reading `now` and yield the acting
    /// subject; an unverifiable or expired token is rejected and names no
    /// subject.
    pub fn authorize(&self, token: &str, now: u64) -> (r: Result<String, AuthError>)
        ensures
            match verified_claims(self.key_bytes(), token@) {
                Some(c) => match r {
                    Ok(sub) => claims_outcome(c, now) == Ok::<Seq<char>, AuthError>(sub@),
                    Err(e) => claims_outcome(c, now) == Err::<Seq<char>, AuthError>(e),
                },
                None => r == Err::<String, AuthError>(AuthError::InvalidOrExpiredToken),
            },
    {
        self.tokens.verify_jwt(token, now)
    }
}

} // verus!
