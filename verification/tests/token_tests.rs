use auth_core::errors::ErrorKind;
use auth_core::token::{decode, encode, TokenClaims, TokenKind};

fn claims(kind: TokenKind, sub: u128, email: &str, iat: u64, exp: u64) -> TokenClaims {
    TokenClaims { kind, sub, email: email.to_string(), iat, exp }
}

#[test]
fn round_trip_before_expiry() {
    let c = claims(TokenKind::Access, 7, "", 100, 200);
    let t = encode(&c, 42);
    let d = decode(&t, 42, 150).unwrap();
    assert_eq!(d.kind, TokenKind::Access);
    assert_eq!(d.sub, 7);
    assert_eq!(d.email, "");
    assert_eq!(d.iat, 100);
    assert_eq!(d.exp, 200);
}

#[test]
fn round_trip_with_email() {
    let c = claims(TokenKind::Reset, 0, "a@x.com", 5, 1000);
    let t = encode(&c, 9001);
    let d = decode(&t, 9001, 6).unwrap();
    assert_eq!(d.kind, TokenKind::Reset);
    assert_eq!(d.sub, 0);
    assert_eq!(d.email, "a@x.com");
    assert_eq!(d.exp, 1000);
}

#[test]
fn expired_at_and_after_expiry() {
    let c = claims(TokenKind::Access, 3, "", 100, 200);
    let t = encode(&c, 42);
    assert!(decode(&t, 42, 199).is_ok());
    assert_eq!(decode(&t, 42, 200).unwrap_err(), ErrorKind::Expired);
    assert_eq!(decode(&t, 42, 5000).unwrap_err(), ErrorKind::Expired);
}

#[test]
fn wrong_key_is_signature_invalid() {
    let c = claims(TokenKind::Access, 3, "", 100, 200);
    let t = encode(&c, 42);
    assert_eq!(decode(&t, 43, 150).unwrap_err(), ErrorKind::SignatureInvalid);
}

#[test]
fn tampered_payload_is_signature_invalid() {
    let c = claims(TokenKind::Access, 77, "", 100, 200);
    let t = encode(&c, 42);
    let mut bytes = t.into_bytes();
    bytes[5] = if bytes[5] == b'0' { b'1' } else { b'0' };
    let tampered = String::from_utf8(bytes).unwrap();
    assert_eq!(decode(&tampered, 42, 150).unwrap_err(), ErrorKind::SignatureInvalid);
}

#[test]
fn short_or_garbled_input_is_malformed() {
    assert_eq!(decode("abc", 42, 0).unwrap_err(), ErrorKind::Malformed);
    assert_eq!(decode("", 42, 0).unwrap_err(), ErrorKind::Malformed);
    let not_hex = "z".repeat(100);
    assert_eq!(decode(&not_hex, 42, 0).unwrap_err(), ErrorKind::Malformed);
}

#[test]
fn distinct_claims_give_distinct_tokens() {
    let a = encode(&claims(TokenKind::Access, 1, "", 100, 200), 42);
    let b = encode(&claims(TokenKind::Access, 2, "", 100, 200), 42);
    let r = encode(&claims(TokenKind::Refresh, 1, "", 100, 200), 42);
    assert_ne!(a, b);
    assert_ne!(a, r);
}

#[test]
fn extreme_claim_values_round_trip() {
    let c = claims(TokenKind::Access, u128::MAX, "", 0, u64::MAX);
    let t = encode(&c, u64::MAX);
    let d = decode(&t, u64::MAX, u64::MAX - 1).unwrap();
    assert_eq!(d.sub, u128::MAX);
    assert_eq!(d.exp, u64::MAX);
    assert_eq!(decode(&t, u64::MAX, u64::MAX).unwrap_err(), ErrorKind::Expired);
}

#[test]
fn unicode_email_round_trips_in_a_url_safe_token() {
    let c = claims(TokenKind::Verify, 0, "åsa@exämple.com", 5, 1000);
    let t = encode(&c, 11);
    assert!(t.chars().all(|ch| ch.is_ascii_alphanumeric()));
    let d = decode(&t, 11, 6).unwrap();
    assert_eq!(d.email, "åsa@exämple.com");
}
