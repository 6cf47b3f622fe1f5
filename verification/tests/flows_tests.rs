use auth_core::errors::ErrorKind;
use auth_core::flows::{
    consume_reset_token, consume_verification_token, hash_password, issue_reset_token,
    issue_verification_token, login, register, register_at, LoginUserSchema, RegisterUserSchema,
};
use auth_core::guard::authenticate;
use auth_core::session::{refresh, AuthConfig};
use auth_core::store::Store;

fn cfg() -> AuthConfig {
    AuthConfig { secret: 7, access_ttl: 60, refresh_ttl: 3600, reset_ttl: 600, verify_ttl: 600 }
}

fn reg(name: &str, email: &str, password: &str) -> RegisterUserSchema {
    RegisterUserSchema {
        name: name.to_string(),
        email: email.to_string(),
        password: password.to_string(),
    }
}

fn log(email: &str, password: &str) -> LoginUserSchema {
    LoginUserSchema { email: email.to_string(), password: password.to_string() }
}

#[test]
fn register_stores_digest_not_password() {
    let mut store = Store::new();
    let u = register_at(&mut store, reg("A", "a@x.com", "hunter2"), 1, 100).unwrap();
    assert_ne!(u.password, "hunter2");
    assert_eq!(u.password, hash_password("hunter2"));
    assert_eq!(u.role, "user");
    assert!(!u.verified);
}

#[test]
fn register_refuses_duplicate_email() {
    let mut store = Store::new();
    register_at(&mut store, reg("A", "a@x.com", "pw"), 1, 100).unwrap();
    let e = register_at(&mut store, reg("B", "a@x.com", "pw2"), 2, 100).unwrap_err();
    assert_eq!(e, ErrorKind::StoreFailure);
}

#[test]
fn register_with_fresh_id_draws_distinct_ids() {
    let mut store = Store::new();
    let a = register(&mut store, reg("A", "a@x.com", "pw")).unwrap();
    let b = register(&mut store, reg("B", "b@x.com", "pw")).unwrap();
    assert_ne!(a.id, b.id);
    let e = register(&mut store, reg("C", "a@x.com", "pw")).unwrap_err();
    assert_eq!(e, ErrorKind::StoreFailure);
}

#[test]
fn login_errors_are_distinct() {
    let c = cfg();
    let mut store = Store::new();
    register_at(&mut store, reg("A", "a@x.com", "pw"), 1, 100).unwrap();
    assert_eq!(login(&store, &log("b@x.com", "pw"), 1000, &c).unwrap_err(), ErrorKind::NotFound);
    assert_eq!(
        login(&store, &log("a@x.com", "wrong"), 1000, &c).unwrap_err(),
        ErrorKind::Unauthorized
    );
    assert!(login(&store, &log("a@x.com", "pw"), 1000, &c).is_ok());
}

#[test]
fn reset_flow_changes_credential() {
    let c = cfg();
    let mut store = Store::new();
    register_at(&mut store, reg("A", "a@x.com", "old-pw"), 1, 100).unwrap();
    let token = issue_reset_token(&store, "a@x.com", 1000, &c).unwrap();
    consume_reset_token(&mut store, &token, "new-pw", 1010, &c).unwrap();
    assert!(login(&store, &log("a@x.com", "new-pw"), 1020, &c).is_ok());
    assert_eq!(
        login(&store, &log("a@x.com", "old-pw"), 1020, &c).unwrap_err(),
        ErrorKind::Unauthorized
    );
}

#[test]
fn reset_token_is_spent_by_use() {
    let c = cfg();
    let mut store = Store::new();
    register_at(&mut store, reg("A", "a@x.com", "old-pw"), 1, 100).unwrap();
    let token = issue_reset_token(&store, "a@x.com", 1000, &c).unwrap();
    consume_reset_token(&mut store, &token, "new-pw", 1010, &c).unwrap();
    assert_eq!(
        consume_reset_token(&mut store, &token, "attacker-pw", 1020, &c).unwrap_err(),
        ErrorKind::StaleCredential
    );
    assert!(login(&store, &log("a@x.com", "new-pw"), 1030, &c).is_ok());
}

#[test]
fn reset_token_for_unknown_email_is_not_found() {
    let c = cfg();
    let mut store = Store::new();
    assert_eq!(
        issue_reset_token(&store, "ghost@x.com", 1000, &c).unwrap_err(),
        ErrorKind::NotFound
    );
    let forged = auth_core::token::encode(
        &auth_core::token::TokenClaims {
            kind: auth_core::token::TokenKind::Reset,
            sub: 0,
            email: "ghost@x.com".to_string(),
            iat: 1000,
            exp: 1600,
        },
        c.secret,
    );
    assert_eq!(
        consume_reset_token(&mut store, &forged, "pw", 1010, &c).unwrap_err(),
        ErrorKind::NotFound
    );
}

#[test]
fn verification_flow_sets_flag() {
    let c = cfg();
    let mut store = Store::new();
    register_at(&mut store, reg("A", "a@x.com", "pw"), 1, 100).unwrap();
    assert!(!store.get_by_email("a@x.com").unwrap().verified);
    let token = issue_verification_token("a@x.com", 1000, &c);
    consume_verification_token(&mut store, &token, 1010, &c).unwrap();
    assert!(store.get_by_email("a@x.com").unwrap().verified);
}

#[test]
fn reset_token_fails_verification_flow_with_wrong_purpose() {
    let c = cfg();
    let mut store = Store::new();
    register_at(&mut store, reg("A", "a@x.com", "pw"), 1, 100).unwrap();
    let reset = issue_reset_token(&store, "a@x.com", 1000, &c).unwrap();
    assert_eq!(
        consume_verification_token(&mut store, &reset, 1010, &c).unwrap_err(),
        ErrorKind::WrongPurpose
    );
}

#[test]
fn verification_token_fails_reset_flow_with_wrong_purpose() {
    let c = cfg();
    let mut store = Store::new();
    register_at(&mut store, reg("A", "a@x.com", "pw"), 1, 100).unwrap();
    let verify = issue_verification_token("a@x.com", 1000, &c);
    assert_eq!(
        consume_reset_token(&mut store, &verify, "pw2", 1010, &c).unwrap_err(),
        ErrorKind::WrongPurpose
    );
}

#[test]
fn expired_out_of_band_token_is_rejected() {
    let c = cfg();
    let mut store = Store::new();
    register_at(&mut store, reg("A", "a@x.com", "pw"), 1, 100).unwrap();
    let token = issue_verification_token("a@x.com", 1000, &c);
    assert_eq!(
        consume_verification_token(&mut store, &token, 1600, &c).unwrap_err(),
        ErrorKind::Expired
    );
}

#[test]
fn end_to_end_session_lifecycle() {
    let c = cfg();
    let mut store = Store::new();
    register_at(&mut store, reg("A", "a@x.com", "pw"), 1, 900).unwrap();

    let (access, refresh_token) = login(&store, &log("a@x.com", "pw"), 1000, &c).unwrap();

    let me = authenticate(&store, &access, 1030, &c).unwrap();
    assert_eq!(me.email, "a@x.com");

    assert_eq!(
        authenticate(&store, &refresh_token, 1030, &c).unwrap_err(),
        ErrorKind::InvalidNamespace
    );

    assert_eq!(authenticate(&store, &access, 1060, &c).unwrap_err(), ErrorKind::Expired);

    let new_access = refresh(&refresh_token, 1060, &c).unwrap();
    let me_again = authenticate(&store, &new_access, 1090, &c).unwrap();
    assert_eq!(me_again.email, "a@x.com");
}

#[test]
fn filtered_identity_carries_no_credential() {
    let mut store = Store::new();
    let u = register_at(&mut store, reg("A", "a@x.com", "pw"), 1, 100).unwrap();
    let f = u.filtered();
    assert_eq!(f.email, "a@x.com");
    assert_eq!(f.name, "A");
    let shown = format!("{:?}", f);
    assert!(!shown.contains(&hash_password("pw")));
}
