//! Bearer tokens: claims construction, HMAC-SHA384 signing, and
//! verification.
//!
//! A token is a compact, self-contained signed string; it carries its own
//! claims, so verification needs no state beyond the process-wide secret
//! key. A token is accepted only if its signature verifies under that key
//! and its `exp` claim, read as a string-encoded Unix-seconds integer, is
//! not in the past. Clock readings are passed in by the caller, so a
//! virtual clock can drive expiry deterministically.

use vstd::prelude::*;

use hmac::{Hmac, Mac};
use jwt::{AlgorithmType, Header, SignWithKey, Token, VerifyWithKey};
use sha2::Sha384;
use std::collections::BTreeMap;

use crate::claims::Claims;
use crate::digits::{dec_of, lemma_parse_round_trip, parse_u64, parse_u64_spec, u64_to_dec};
use crate::errors::AuthError;

verus! {

/// The compact signed token string that HMAC-SHA384 signing derives from a
/// claims map under a secret key; a function of the two alone.
pub uninterp spec fn signed_token_of(key: Seq<u8>, claims: Map<Seq<char>, Seq<char>>) -> Seq<char>;

/// The claims that verification under `key` extracts from a token string:
/// `None` if the string does not parse as a token, names another algorithm,
/// or carries a signature that does not match; otherwise the embedded
/// claims. A function of the key and the string alone.
pub uninterp spec fn verified_claims(key: Seq<u8>, token: Seq<char>) -> Option<
    Map<Seq<char>, Seq<char>>,
>;

/// Relies on `jwt::SignWithKey::sign_with_key` with an
/// `hmac::Hmac<sha2::Sha384>` key: the token is built deterministically from
/// the key and the claims alone, and `jwt::VerifyWithKey::verify_with_key`
/// accepts it under the same key and returns the same claims. The call
/// cannot fail: `Hmac::new_from_slice` accepts a key of any length, the
/// fixed HS384 header matches the key's algorithm, JSON serialization of
/// the header and of a string-keyed map does not err, and the HMAC signer
/// returns its MAC unconditionally.
#[verifier::external_body]
fn sign_claims(key: &[u8], claims: &Claims) -> (t: String)
    ensures
        t@ == signed_token_of(key@, claims@),
        verified_claims(key@, t@) == Some(claims@),
{
    let mac: Hmac<Sha384> = Hmac::new_from_slice(key).expect("any key length is accepted");
    let map: BTreeMap<String, String> = claims.pairs.iter().cloned().collect();
    let header = Header { algorithm: AlgorithmType::Hs384, ..Default::default() };
    let token = Token::new(header, map).sign_with_key(&mac).expect("HMAC signing does not fail");
    token.as_str().to_string()
}

/// Relies on `jwt::VerifyWithKey::verify_with_key` for `&str` with an
/// `hmac::Hmac<sha2::Sha384>` key (`Hmac::new_from_slice`, which accepts a
/// key of any length and never fails): the token is split, its header must
/// name HS384, the MAC is recomputed from the secret key and compared, and
/// the embedded claims are returned; all of it deterministic in the key and
/// the token string.
#[verifier::external_body]
fn check_token(key: &[u8], token: &str) -> (r: Option<Claims>)
    ensures
        match r {
            Some(c) => c.wf() && verified_claims(key@, token@) == Some(c@),
            None => verified_claims(key@, token@) is None,
        },
{
    let mac: Hmac<Sha384> = match Hmac::new_from_slice(key) {
        Ok(m) => m,
        Err(_) => return None,
    };
    let parsed: Result<Token<Header, BTreeMap<String, String>, _>, _> = token.verify_with_key(
        &mac,
    );
    match parsed {
        Ok(t) => Some(
            Claims { pairs: t.claims().iter().map(|(k, v)| (k.clone(), v.clone())).collect() },
        ),
        Err(_) => None,
    }
}

/// The claims minted for subject `sub` with expiry `exp`.
pub open spec fn issued_claims(sub: Seq<char>, exp: u64) -> Map<Seq<char>, Seq<char>> {
    map!["sub"@ => sub, "exp"@ => dec_of(exp as nat)]
}

/// The subject a claims map names; empty if it has no `sub` claim.
pub open spec fn token_subject(c: Map<Seq<char>, Seq<char>>) -> Seq<char> {
    if c.contains_key("sub"@) {
        c["sub"@]
    } else {
        Seq::empty()
    }
}

/// The expiry a claims map carries: its `exp` claim read as a decimal
/// `u64`, or `None` if the claim is missing or unparsable.
pub open spec fn token_exp(c: Map<Seq<char>, Seq<char>>) -> Option<u64> {
    if c.contains_key("exp"@) {
        parse_u64_spec(c["exp"@])
    } else {
        None
    }
}

/// The outcome of judging a claims map at clock reading `now`: the subject
/// when the expiry lies strictly after `now`; rejection when the expiry has
/// been reached, and, whatever the clock reads, when the `exp` claim is
/// missing or unparsable.
pub open spec fn claims_outcome(c: Map<Seq<char>, Seq<char>>, now: u64) -> Result<
    Seq<char>,
    AuthError,
> {
    match token_exp(c) {
        Some(exp) => if exp > now {
            Ok(token_subject(c))
        } else {
            Err(AuthError::InvalidOrExpiredToken)
        },
        None => Err(AuthError::InvalidOrExpiredToken),
    }
}

/// Issues and verifies bearer tokens under one process-wide symmetric
/// secret key, established at startup and immutable afterwards.
pub struct TokenService {
    key: Vec<u8>,
}

impl TokenService {
    /// The secret key's bytes.
    pub closed spec fn key_bytes(&self) -> Seq<u8> {
        self.key@
    }

    /// A service signing with `key`. The key is configuration handed in by
    /// the caller, never a literal held here.
    pub fn new(key: Vec<u8>) -> (s: Self)
        ensures
            s.key_bytes() == key@,
    {
        TokenService { key }
    }

    /// Mint a token for `subject` expiring `expiration` seconds after
    /// `now`: exactly the claims `{sub: subject, exp: now + expiration}`,
    /// signed under the service key. HMAC signing has no failure path, so
    /// issuing is total.
    pub fn issue_jwt(&self, subject: &str, expiration: u64, now: u64) -> (t: String)
        requires
            now + expiration <= u64::MAX,
        ensures
            t@ == signed_token_of(
                self.key_bytes(),
                issued_claims(subject@, (now + expiration) as u64),
            ),
            verified_claims(self.key_bytes(), t@) == Some(
                issued_claims(subject@, (now + expiration) as u64),
            ),
    {
        let exp = now + expiration;
        let mut claims = Claims::new();
        claims.insert("sub", subject.to_owned());
        claims.insert("exp", u64_to_dec(exp));
        proof {
            lemma_claim_keys_distinct();
            assert(claims@ =~= issued_claims(subject@, exp));
        }
        sign_claims(self.key.as_slice(), &claims)
    }

    /// Verify a token at clock reading `now`: if its signature verifies
    /// under the service key, judge its claims (`claims_outcome`);
    /// otherwise reject it.
    pub fn verify_jwt(&self, token: &str, now: u64) -> (r: Result<String, AuthError>)
        ensures
            match verified_claims(self.key_bytes(), token@) {
                Some(c) => match r {
                    Ok(sub) => claims_outcome(c, now) == Ok::<Seq<char>, AuthError>(sub@),
                    Err(e) => claims_outcome(c, now) == Err::<Seq<char>, AuthError>(e),
                },
                None => r == Err::<String, AuthError>(AuthError::InvalidOrExpiredToken),
            },
    {
        let claims = match check_token(self.key.as_slice(), token) {
            Some(c) => c,
            None => {
                return Err(AuthError::InvalidOrExpiredToken);
            },
        };
        let exp: u64 = match claims.get("exp") {
            Some(v) => match parse_u64(v.as_str()) {
                Some(n) => n,
                None => {
                    return Err(AuthError::InvalidOrExpiredToken);
                },
            },
            None => {
                return Err(AuthError::InvalidOrExpiredToken);
            },
        };
        if exp <= now {
            return Err(AuthError::InvalidOrExpiredToken);
        }
        let sub: String = match claims.get("sub") {
            Some(v) => v.clone(),
            None => String::new(),
        };
        Ok(sub)
    }
}

/// The claim keys `sub` and `exp` are distinct.
proof fn lemma_claim_keys_distinct()
    ensures
        "sub"@ != "exp"@,
{
    reveal_strlit("sub");
    reveal_strlit("exp");
    assert("sub"@[0] == 's' && "exp"@[0] == 'e');
}

/// Law: a token minted for `sub` with expiry `exp` and judged at any clock
/// reading strictly before `exp` yields exactly `sub`; with `issue_jwt` and
/// `verify_jwt`'s contracts, issuing and immediately verifying a token
/// returns its subject.
pub proof fn lemma_issue_then_verify(sub: Seq<char>, exp: u64, now: u64)
    requires
        now < exp,
    ensures
        claims_outcome(issued_claims(sub, exp), now) == Ok::<Seq<char>, AuthError>(sub),
{
    lemma_claim_keys_distinct();
    lemma_parse_round_trip(exp);
}

/// Law: a token whose expiry has been reached — the clock reading equals
/// or passes `exp` — is rejected as expired, whatever its subject.
pub proof fn lemma_expired_token_rejected(sub: Seq<char>, exp: u64, now: u64)
    requires
        exp <= now,
    ensures
        claims_outcome(issued_claims(sub, exp), now) == Err::<Seq<char>, AuthError>(
            AuthError::InvalidOrExpiredToken,
        ),
{
    lemma_claim_keys_distinct();
    lemma_parse_round_trip(exp);
}

} // verus!
