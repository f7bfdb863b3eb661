use auth_core::auth::{
    AuthService, SignupForm, LOGIN_SUCCESS_STATUS, SIGNUP_SUCCESS_STATUS,
};
use auth_core::errors::AuthError;
use auth_core::index;
use auth_core::store::CredentialStore;

const NOW: u64 = 1_700_000_000;

fn service() -> AuthService {
    AuthService::new(b"unit-test-signing-key".to_vec())
}

fn form(username: &str, password: &str) -> SignupForm {
    SignupForm {
        username: username.to_string(),
        password: password.to_string(),
    }
}

#[test]
fn signup_scenario() {
    let svc = service();
    let mut store = CredentialStore::new();
    let resp = svc
        .signup(&mut store, &form("alice", "pw123"), NOW)
        .expect("signup failed");
    assert_eq!(SIGNUP_SUCCESS_STATUS, 201);
    assert_eq!(resp.username, "alice");
    // The token's subject is the fresh username...
    assert_eq!(svc.authorize(&resp.token, NOW), Ok(String::from("alice")));
    // ...and its expiry sits one hour ahead of the signup clock, accepted
    // only strictly before that reading.
    assert!(svc.authorize(&resp.token, NOW + 3599).is_ok());
    assert!(svc.authorize(&resp.token, NOW + 3600).is_err());
    assert!(svc.authorize(&resp.token, NOW + 3601).is_err());
}

#[test]
fn duplicate_signup_conflicts() {
    let svc = service();
    let mut store = CredentialStore::new();
    assert!(svc.signup(&mut store, &form("alice", "pw123"), NOW).is_ok());
    let second = svc.signup(&mut store, &form("alice", "other"), NOW);
    assert_eq!(second, Err(AuthError::UsernameTaken));
    assert_eq!(AuthError::UsernameTaken.status_code(), 409);
    // The stored record still belongs to the first signup.
    assert!(svc.login(&store, &form("alice", "pw123"), NOW).is_ok());
    assert_eq!(
        svc.login(&store, &form("alice", "other"), NOW),
        Err(AuthError::InvalidCredentials)
    );
}

#[test]
fn signup_rejects_empty_fields() {
    let svc = service();
    let mut store = CredentialStore::new();
    assert_eq!(
        svc.signup(&mut store, &form("", "pw123"), NOW),
        Err(AuthError::ValidationError)
    );
    assert_eq!(
        svc.signup(&mut store, &form("alice", ""), NOW),
        Err(AuthError::ValidationError)
    );
    assert_eq!(AuthError::ValidationError.status_code(), 400);
    assert!(store.find_by_username("alice").is_none());
}

#[test]
fn login_scenario() {
    let svc = service();
    let mut store = CredentialStore::new();
    assert!(svc.signup(&mut store, &form("alice", "pw123"), NOW).is_ok());
    let resp = svc
        .login(&store, &form("alice", "pw123"), NOW + 100)
        .expect("login failed");
    assert_eq!(LOGIN_SUCCESS_STATUS, 200);
    assert_eq!(resp.username, "alice");
    assert_eq!(
        svc.authorize(&resp.token, NOW + 100),
        Ok(String::from("alice"))
    );
}

#[test]
fn login_wrong_password() {
    let svc = service();
    let mut store = CredentialStore::new();
    assert!(svc.signup(&mut store, &form("alice", "pw123"), NOW).is_ok());
    let err = svc
        .login(&store, &form("alice", "wrong"), NOW)
        .expect_err("login accepted a wrong password");
    assert_eq!(err, AuthError::InvalidCredentials);
    assert_eq!(err.status_code(), 401);
    assert_eq!(err.message(), "Invalid username or password");
}

#[test]
fn login_unknown_user_is_indistinguishable_from_wrong_password() {
    let svc = service();
    let mut store = CredentialStore::new();
    assert!(svc.signup(&mut store, &form("alice", "pw123"), NOW).is_ok());
    let wrong_password = svc
        .login(&store, &form("alice", "wrong"), NOW)
        .expect_err("login accepted a wrong password");
    let unknown_user = svc
        .login(&store, &form("bob", "anything"), NOW)
        .expect_err("login accepted an unregistered user");
    assert_eq!(wrong_password, unknown_user);
    assert_eq!(wrong_password.status_code(), unknown_user.status_code());
    assert_eq!(wrong_password.message(), unknown_user.message());
}

#[test]
fn authorize_expired_token_is_unauthorized() {
    let svc = service();
    let mut store = CredentialStore::new();
    let resp = svc
        .signup(&mut store, &form("alice", "pw123"), NOW)
        .expect("signup failed");
    let err = svc
        .authorize(&resp.token, NOW + 4000)
        .expect_err("expired token accepted");
    // The rejection names no subject.
    assert_eq!(err, AuthError::InvalidOrExpiredToken);
    assert_eq!(err.status_code(), 401);
    assert_eq!(err.message(), "Invalid or expired token");
}

#[test]
fn authorize_garbage_token_is_unauthorized() {
    let svc = service();
    assert_eq!(
        svc.authorize("", NOW),
        Err(AuthError::InvalidOrExpiredToken)
    );
    assert_eq!(
        svc.authorize("not.a.token", NOW),
        Err(AuthError::InvalidOrExpiredToken)
    );
}

#[test]
fn tokens_from_different_services_share_the_key_not_the_state() {
    // Tokens are stateless: any service holding the same key accepts them.
    let svc1 = service();
    let svc2 = service();
    let mut store = CredentialStore::new();
    let resp = svc1
        .signup(&mut store, &form("alice", "pw123"), NOW)
        .expect("signup failed");
    assert_eq!(svc2.authorize(&resp.token, NOW), Ok(String::from("alice")));
}

#[test]
fn custom_ttl_bounds_expiry() {
    let svc = AuthService::with_ttl(b"unit-test-signing-key".to_vec(), 60);
    let mut store = CredentialStore::new();
    let resp = svc
        .signup(&mut store, &form("alice", "pw123"), NOW)
        .expect("signup failed");
    assert!(svc.authorize(&resp.token, NOW + 59).is_ok());
    assert!(svc.authorize(&resp.token, NOW + 60).is_err());
}

#[test]
fn root_greeting() {
    assert_eq!(index(), "Hello, world!");
}

#[test]
fn unicode_credentials_round_trip() {
    let svc = service();
    let mut store = CredentialStore::new();
    let resp = svc
        .signup(&mut store, &form("žofia", "contraseña🔑"), NOW)
        .expect("signup failed");
    assert_eq!(resp.username, "žofia");
    assert_eq!(svc.authorize(&resp.token, NOW), Ok(String::from("žofia")));
    assert!(svc.login(&store, &form("žofia", "contraseña🔑"), NOW).is_ok());
    assert_eq!(
        svc.login(&store, &form("žofia", "contrasena🔑"), NOW),
        Err(AuthError::InvalidCredentials)
    );
}

#[test]
fn same_password_twice_gives_distinct_records() {
    let svc = service();
    let mut store = CredentialStore::new();
    assert!(svc.signup(&mut store, &form("alice", "pw123"), NOW).is_ok());
    assert!(svc.signup(&mut store, &form("bob", "pw123"), NOW).is_ok());
    let alice = store.find_by_username("alice").expect("record missing");
    let bob = store.find_by_username("bob").expect("record missing");
    // Fresh random salts: the hashes differ even for one password, and each
    // encoded hash embeds its own record's salt.
    assert_ne!(alice.salt, bob.salt);
    assert_ne!(alice.password_hash, bob.password_hash);
    assert!(alice.password_hash.contains(&alice.salt));
    assert!(bob.password_hash.contains(&bob.salt));
    assert!(svc.login(&store, &form("alice", "pw123"), NOW).is_ok());
    assert!(svc.login(&store, &form("bob", "pw123"), NOW).is_ok());
}
