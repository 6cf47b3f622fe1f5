use auth_core::errors::ErrorKind;
use auth_core::session::{issue_access, issue_session, refresh, AuthConfig};
use auth_core::token::{decode, TokenKind};

fn cfg() -> AuthConfig {
    AuthConfig { secret: 99, access_ttl: 60, refresh_ttl: 3600, reset_ttl: 600, verify_ttl: 600 }
}

#[test]
fn session_pair_has_distinct_namespaces_and_lifetimes() {
    let c = cfg();
    let (access, refresh_token) = issue_session(5, 1000, &c);
    let a = decode(&access, c.secret, 1001).unwrap();
    let r = decode(&refresh_token, c.secret, 1001).unwrap();
    assert_eq!(a.kind, TokenKind::Access);
    assert_eq!(r.kind, TokenKind::Refresh);
    assert_eq!(a.sub, 5);
    assert_eq!(r.sub, 5);
    assert_eq!(a.exp, 1060);
    assert_eq!(r.exp, 4600);
}

#[test]
fn refresh_yields_new_access_for_same_subject() {
    let c = cfg();
    let (_, refresh_token) = issue_session(5, 1000, &c);
    let new_access = refresh(&refresh_token, 2000, &c).unwrap();
    let d = decode(&new_access, c.secret, 2010).unwrap();
    assert_eq!(d.kind, TokenKind::Access);
    assert_eq!(d.sub, 5);
    assert_eq!(d.iat, 2000);
    assert_eq!(d.exp, 2060);
}

#[test]
fn refresh_rejects_access_namespace() {
    let c = cfg();
    let access = issue_access(5, 1000, &c);
    assert_eq!(refresh(&access, 1001, &c).unwrap_err(), ErrorKind::InvalidNamespace);
}

#[test]
fn refresh_rejects_expired_refresh_token() {
    let c = cfg();
    let (_, refresh_token) = issue_session(5, 1000, &c);
    assert_eq!(refresh(&refresh_token, 4600, &c).unwrap_err(), ErrorKind::Expired);
}

#[test]
fn refresh_rejects_forged_token() {
    let c = cfg();
    let other = AuthConfig { secret: 98, ..c };
    let (_, refresh_token) = issue_session(5, 1000, &other);
    assert_eq!(refresh(&refresh_token, 1001, &c).unwrap_err(), ErrorKind::SignatureInvalid);
}
