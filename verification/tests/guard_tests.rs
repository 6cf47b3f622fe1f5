use auth_core::errors::ErrorKind;
use auth_core::flows::{register_at, RegisterUserSchema};
use auth_core::guard::{authenticate, extract_token};
use auth_core::session::{issue_access, issue_session, AuthConfig};
use auth_core::store::Store;

fn cfg() -> AuthConfig {
    AuthConfig { secret: 7, access_ttl: 60, refresh_ttl: 3600, reset_ttl: 600, verify_ttl: 600 }
}

fn store_with_user(id: u128, email: &str) -> Store {
    let mut store = Store::new();
    let body = RegisterUserSchema {
        name: "Someone".to_string(),
        email: email.to_string(),
        password: "pw".to_string(),
    };
    register_at(&mut store, body, id, 500).unwrap();
    store
}

#[test]
fn extract_prefers_bearer_header() {
    let t = extract_token(Some("Bearer abc123"), Some("cookie-token")).unwrap();
    assert_eq!(t, "abc123");
}

#[test]
fn extract_falls_back_to_cookie() {
    assert_eq!(extract_token(None, Some("ck")).unwrap(), "ck");
    assert_eq!(extract_token(Some("Basic abc"), Some("ck")).unwrap(), "ck");
    assert_eq!(extract_token(Some("short"), Some("ck")).unwrap(), "ck");
}

#[test]
fn extract_without_credential_is_rejected() {
    assert_eq!(extract_token(None, None).unwrap_err(), ErrorKind::MissingCredential);
    assert_eq!(extract_token(Some("Basic abc"), None).unwrap_err(), ErrorKind::MissingCredential);
}

#[test]
fn guard_admits_valid_access_token() {
    let c = cfg();
    let store = store_with_user(11, "a@x.com");
    let token = issue_access(11, 1000, &c);
    let u = authenticate(&store, &token, 1030, &c).unwrap();
    assert_eq!(u.id, 11);
    assert_eq!(u.email, "a@x.com");
}

#[test]
fn guard_rejects_refresh_namespace() {
    let c = cfg();
    let store = store_with_user(11, "a@x.com");
    let (_, refresh_token) = issue_session(11, 1000, &c);
    assert_eq!(
        authenticate(&store, &refresh_token, 1030, &c).unwrap_err(),
        ErrorKind::InvalidNamespace
    );
}

#[test]
fn guard_rejects_expired_token() {
    let c = cfg();
    let store = store_with_user(11, "a@x.com");
    let token = issue_access(11, 1000, &c);
    assert_eq!(authenticate(&store, &token, 1060, &c).unwrap_err(), ErrorKind::Expired);
}

#[test]
fn guard_rejects_unknown_subject() {
    let c = cfg();
    let store = store_with_user(11, "a@x.com");
    let token = issue_access(12, 1000, &c);
    assert_eq!(authenticate(&store, &token, 1030, &c).unwrap_err(), ErrorKind::StaleCredential);
}

#[test]
fn guard_rejects_garbage_token() {
    let c = cfg();
    let store = store_with_user(11, "a@x.com");
    assert_eq!(authenticate(&store, "nonsense", 1030, &c).unwrap_err(), ErrorKind::Malformed);
}
