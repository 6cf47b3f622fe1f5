//! The session issuer: on login it produces an access/refresh token pair
//! with distinct lifetimes; on refresh it validates the refresh half and
//! issues a fresh access token for the same subject. Stateless — nothing is
//! written anywhere, so revocation before expiry is not offered.

use vstd::prelude::*;

use crate::errors::ErrorKind;
use crate::token::{
    decode, encode, spec_decode, spec_encode, ClaimsView, TokenClaims, TokenKind, wf_claims,
    lemma_decode_encode,
};
use vstd::utf8::{encode_utf8, is_ascii_chars};

verus! {

/// Process-wide immutable configuration: the signing secret and the fixed
/// lifetime, in seconds, of each token namespace.
#[derive(Clone, Copy)]
pub struct AuthConfig {
    pub secret: u64,
    pub access_ttl: u64,
    pub refresh_ttl: u64,
    pub reset_ttl: u64,
    pub verify_ttl: u64,
}

impl AuthConfig {
    /// Every lifetime is at least one second, so expiry is always strictly
    /// after issuance.
    pub open spec fn wf(&self) -> bool {
        self.access_ttl >= 1 && self.refresh_ttl >= 1 && self.reset_ttl >= 1 && self.verify_ttl
            >= 1
    }
}

/// The claims of an access token issued at `now`.
pub open spec fn access_claims(sub: u128, now: u64, cfg: AuthConfig) -> ClaimsView {
    ClaimsView {
        kind: TokenKind::Access,
        sub,
        email: Seq::empty(),
        iat: now,
        exp: (now + cfg.access_ttl) as u64,
    }
}

/// The claims of a refresh token issued at `now`.
pub open spec fn refresh_claims(sub: u128, now: u64, cfg: AuthConfig) -> ClaimsView {
    ClaimsView {
        kind: TokenKind::Refresh,
        sub,
        email: Seq::empty(),
        iat: now,
        exp: (now + cfg.refresh_ttl) as u64,
    }
}

/// Issues an access token for this subject.
pub fn issue_access(sub: u128, now: u64, cfg: &AuthConfig) -> (r: String)
    requires
        cfg.wf(),
        now + cfg.access_ttl <= u64::MAX,
    ensures
        encode_utf8(r@) == spec_encode(access_claims(sub, now, *cfg), cfg.secret),
        is_ascii_chars(r@),
{
    let claims = TokenClaims {
        kind: TokenKind::Access,
        sub,
        email: String::new(),
        iat: now,
        exp: now + cfg.access_ttl,
    };
    encode(&claims, cfg.secret)
}

/// Issues the session pair: an access token and a refresh token for the
/// same subject, each with its namespace and its own lifetime.
pub fn issue_session(sub: u128, now: u64, cfg: &AuthConfig) -> (r: (String, String))
    requires
        cfg.wf(),
        now + cfg.access_ttl <= u64::MAX,
        now + cfg.refresh_ttl <= u64::MAX,
    ensures
        encode_utf8(r.0@) == spec_encode(access_claims(sub, now, *cfg), cfg.secret),
        encode_utf8(r.1@) == spec_encode(refresh_claims(sub, now, *cfg), cfg.secret),
        is_ascii_chars(r.0@),
        is_ascii_chars(r.1@),
{
    let access = issue_access(sub, now, cfg);
    let refresh_claims_v = TokenClaims {
        kind: TokenKind::Refresh,
        sub,
        email: String::new(),
        iat: now,
        exp: now + cfg.refresh_ttl,
    };
    let refresh = encode(&refresh_claims_v, cfg.secret);
    (access, refresh)
}

/// What `refresh` returns for any presented byte content: codec errors pass
/// through, an access-namespace (or out-of-band) token is refused with
/// `InvalidNamespace`, and a valid refresh token yields a new access token
/// for its subject.
pub open spec fn spec_refresh(b: Seq<u8>, now: u64, cfg: AuthConfig) -> Result<Seq<u8>, ErrorKind> {
    match spec_decode(b, cfg.secret, now) {
        Err(e) => Err(e),
        Ok(c) => if c.kind != TokenKind::Refresh {
            Err(ErrorKind::InvalidNamespace)
        } else {
            Ok(spec_encode(access_claims(c.sub, now, cfg), cfg.secret))
        },
    }
}

/// Exchanges a refresh token for a new access token.
pub fn refresh(token: &str, now: u64, cfg: &AuthConfig) -> (r: Result<String, ErrorKind>)
    requires
        cfg.wf(),
        now + cfg.access_ttl <= u64::MAX,
    ensures
        match r {
            Ok(t) => spec_refresh(encode_utf8(token@), now, *cfg) == Ok::<Seq<u8>, ErrorKind>(
                encode_utf8(t@),
            ) && is_ascii_chars(t@),
            Err(e) => spec_refresh(encode_utf8(token@), now, *cfg) == Err::<Seq<u8>, ErrorKind>(e),
        },
{
    let claims = match decode(token, cfg.secret, now) {
        Ok(c) => c,
        Err(e) => {
            return Err(e);
        },
    };
    match claims.kind {
        TokenKind::Refresh => {},
        _ => {
            return Err(ErrorKind::InvalidNamespace);
        },
    }
    Ok(issue_access(claims.sub, now, cfg))
}

/// The refresh law: the refresh half of a session issued for subject `sub`
/// at `now0`, presented unexpired at `now1`, yields a new access token whose
/// decoded subject is `sub` again (checked at any `now2` before that token's
/// expiry).
pub proof fn lemma_refresh_yields_same_subject(
    sub: u128,
    now0: u64,
    now1: u64,
    now2: u64,
    cfg: AuthConfig,
)
    requires
        cfg.wf(),
        now0 + cfg.refresh_ttl <= u64::MAX,
        now1 + cfg.access_ttl <= u64::MAX,
        now1 < now0 + cfg.refresh_ttl,
        now2 < now1 + cfg.access_ttl,
    ensures
        ({
            let refreshed = spec_refresh(
                spec_encode(refresh_claims(sub, now0, cfg), cfg.secret),
                now1,
                cfg,
            );
            &&& refreshed matches Ok(t)
            &&& spec_decode(refreshed->Ok_0, cfg.secret, now2) matches Ok(c) && c.sub == sub
                && c.kind == TokenKind::Access
        }),
{
    assert(wf_claims(refresh_claims(sub, now0, cfg)));
    assert(wf_claims(access_claims(sub, now1, cfg)));
    lemma_decode_encode(refresh_claims(sub, now0, cfg), cfg.secret, now1);
    lemma_decode_encode(access_claims(sub, now1, cfg), cfg.secret, now2);
}

} // verus!
