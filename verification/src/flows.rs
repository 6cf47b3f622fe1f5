//! Account flows: registration, login, and the two out-of-band token flows
//! (password reset and email verification). Each consuming operation checks
//! the token's purpose before anything else about the account, and the two
//! purposes never validate each other's requests.

use vstd::prelude::*;

use crate::errors::ErrorKind;
use crate::hex::{hex_of, push_hex};
use crate::session::{issue_session, access_claims, refresh_claims, AuthConfig};
use crate::store::{Store, User};
use crate::sys::{fresh_id, now_unix};
use crate::token::{
    decode, encode, spec_decode, spec_encode, tag_of, tag_range, string_from_ascii, ascii_chars,
    ClaimsView, TokenClaims, TokenKind, lemma_decode_encode, lemma_ascii_chars_of_bytes,
    wf_claims,
};
use vstd::utf8::{encode_utf8, is_ascii_chars};

verus! {

pub struct RegisterUserSchema {
    pub name: String,
    pub email: String,
    pub password: String,
}

pub struct LoginUserSchema {
    pub email: String,
    pub password: String,
}

pub struct UpdateUserSchema {
    pub name: String,
    pub email: String,
    pub photo: String,
}

pub struct UpdatePasswordSchema {
    pub password: String,
    pub new_password: String,
}

pub struct ResetPasswordSchema {
    pub email: String,
    pub password: String,
    pub token: String,
}

pub struct ForgotPasswordSchema {
    pub email: String,
}

pub struct VerifyEmailSchema {
    pub email: String,
    pub token: String,
}

pub struct RefreshTokenSchema {
    pub refresh_token: String,
}

pub struct DeleteUserSchema {
    pub email: String,
    pub password: String,
}

/// The credential digest stored for a password: the hex rendering of the
/// polynomial digest of its UTF-8 bytes. Compared on login, never decoded.
pub open spec fn password_digest(p: Seq<char>) -> Seq<u8> {
    hex_of(tag_of(0, encode_utf8(p)) as int, 16)
}

/// Computes the stored credential digest of a password.
pub fn hash_password(p: &str) -> (r: String)
    ensures
        encode_utf8(r@) == password_digest(p@),
        r@ == ascii_chars(password_digest(p@)),
        is_ascii_chars(r@),
{
    let b: &[u8] = p.as_bytes();
    let t = tag_range(b, 0, b.len(), 0);
    proof {
        assert(b@.subrange(0, b@.len() as int) =~= b@);
        crate::token::lemma_pow16_16();
        crate::hex::lemma_hex_of_ascii(t as int, 16);
    }
    let mut v: Vec<u8> = Vec::new();
    push_hex(&mut v, t as u128, 16);
    proof {
        assert(v@ =~= hex_of(t as int, 16));
        lemma_ascii_chars_of_bytes(v@);
    }
    string_from_ascii(v)
}

/// Registers an identity at a fixed instant with a fixed new id: the record
/// is stored with the digest of the password, the `user` role, and the
/// unverified flag; a duplicate id or email is refused by the store.
pub fn register_at(store: &mut Store, body: RegisterUserSchema, id: u128, now: u64) -> (r: Result<
    User,
    ErrorKind,
>)
    requires
        old(store).wf(),
    ensures
        final(store).wf(),
        final(store).post_seq() == old(store).post_seq(),
        match r {
            Ok(u) => {
                &&& !old(store).has_user_id(id) && !old(store).has_user_email(body.email@)
                &&& final(store).user_seq() == old(store).user_seq().push(u)
                &&& u.id == id && u.name == body.name && u.email == body.email
                &&& u.password@ == ascii_chars(password_digest(body.password@))
                &&& u.role@ == "user"@ && u.verified == false
                &&& u.created_at == Some(now) && u.updated_at == Some(now)
            },
            Err(e) => e == ErrorKind::StoreFailure && (old(store).has_user_id(id) || old(
                store,
            ).has_user_email(body.email@)) && *final(store) == *old(store),
        },
{
    let digest = hash_password(body.password.as_str());
    let user = User {
        id,
        name: body.name,
        email: body.email,
        password: digest,
        role: "user".to_owned(),
        photo: "default.png".to_owned(),
        verified: false,
        created_at: Some(now),
        updated_at: Some(now),
    };
    let copy = user.duplicate();
    match store.insert_user(user) {
        Ok(()) => Ok(copy),
        Err(e) => Err(e),
    }
}

/// Registers an identity with a freshly drawn id at the current instant.
/// The id and the clock reading are drawn inside, so only what holds of
/// every outcome is stated; `register_at` carries the exact contract.
pub fn register(store: &mut Store, body: RegisterUserSchema) -> (r: Result<User, ErrorKind>)
    requires
        old(store).wf(),
    ensures
        final(store).wf(),
        final(store).post_seq() == old(store).post_seq(),
        match r {
            Ok(u) => {
                &&& !old(store).has_user_email(body.email@)
                &&& final(store).user_seq() == old(store).user_seq().push(u)
                &&& u.name == body.name && u.email == body.email
                &&& u.password@ == ascii_chars(password_digest(body.password@))
                &&& u.role@ == "user"@ && u.verified == false
            },
            Err(e) => e == ErrorKind::StoreFailure && *final(store) == *old(store),
        },
        old(store).has_user_email(body.email@) ==> r is Err,
        old(store).user_seq().len() == 0 ==> r is Ok,
{
    let id = fresh_id();
    let now = now_unix();
    register_at(store, body, id, now)
}

/// The index of the stored user with this email (meaningful under the
/// store's uniqueness invariant when such a user exists).
pub open spec fn spec_user_index_by_email(s: Seq<User>, email: Seq<char>) -> int {
    choose|i: int| 0 <= i < s.len() && s[i].email@ == email
}

pub proof fn lemma_user_email_index_unique(s: Seq<User>, i: int)
    requires
        forall|a: int, b: int|
            0 <= a < b < s.len() ==> #[trigger] s[a].email@ != #[trigger] s[b].email@,
        0 <= i < s.len(),
    ensures
        spec_user_index_by_email(s, s[i].email@) == i,
{
    let j = spec_user_index_by_email(s, s[i].email@);
    assert(0 <= j < s.len() && s[j].email@ == s[i].email@);
    if i < j {
        assert(s[i].email@ != s[j].email@);
    } else if j < i {
        assert(s[j].email@ != s[i].email@);
    }
}

/// Whether some stored user has this email.
pub open spec fn has_email(s: Seq<User>, email: Seq<char>) -> bool {
    exists|i: int| 0 <= i < s.len() && #[trigger] s[i].email@ == email
}

/// Authenticates a login attempt: an unknown email is `NotFound`, a wrong
/// password is `Unauthorized`, and otherwise the session pair is issued for
/// the account's id.
pub fn login(store: &Store, body: &LoginUserSchema, now: u64, cfg: &AuthConfig) -> (r: Result<
    (String, String),
    ErrorKind,
>)
    requires
        store.wf(),
        cfg.wf(),
        now + cfg.access_ttl <= u64::MAX,
        now + cfg.refresh_ttl <= u64::MAX,
    ensures
        ({
            let users = store.user_seq();
            let i = spec_user_index_by_email(users, body.email@);
            match r {
                Ok(pair) => {
                    &&& has_email(users, body.email@)
                    &&& users[i].password@ == ascii_chars(password_digest(body.password@))
                    &&& encode_utf8(pair.0@) == spec_encode(
                        access_claims(users[i].id, now, *cfg),
                        cfg.secret,
                    )
                    &&& encode_utf8(pair.1@) == spec_encode(
                        refresh_claims(users[i].id, now, *cfg),
                        cfg.secret,
                    )
                },
                Err(e) => if !has_email(users, body.email@) {
                    e == ErrorKind::NotFound
                } else {
                    e == ErrorKind::Unauthorized && users[i].password@ != ascii_chars(
                        password_digest(body.password@),
                    )
                },
            }
        }),
{
    let user = match store.get_by_email(body.email.as_str()) {
        Some(u) => u,
        None => {
            return Err(ErrorKind::NotFound);
        },
    };
    proof {
        let w = choose|i: int|
            0 <= i < store.user_seq().len() && #[trigger] store.user_seq()[i] == *user
                && user.email@ == body.email@;
        lemma_user_email_index_unique(store.user_seq(), w);
    }
    let digest = hash_password(body.password.as_str());
    if !user.password.eq(&digest) {
        return Err(ErrorKind::Unauthorized);
    }
    Ok(issue_session(user.id, now, cfg))
}

/// The claims of a password-reset token issued at `now`.
pub open spec fn reset_claims(email: Seq<char>, fp: u128, now: u64, cfg: AuthConfig) -> ClaimsView {
    ClaimsView {
        kind: TokenKind::Reset,
        sub: fp,
        email,
        iat: now,
        exp: (now + cfg.reset_ttl) as u64,
    }
}

/// The fingerprint of a stored credential: a reset token carries it in its
/// subject field, so that once the credential changes the token is spent.
pub open spec fn credential_fingerprint(password: Seq<char>) -> u128 {
    tag_of(0, encode_utf8(password)) as u128
}

/// Computes the fingerprint of a stored credential digest.
pub fn fingerprint_of(password: &str) -> (r: u128)
    ensures
        r == credential_fingerprint(password@),
{
    let b: &[u8] = password.as_bytes();
    let t = tag_range(b, 0, b.len(), 0);
    proof {
        assert(b@.subrange(0, b@.len() as int) =~= b@);
    }
    t as u128
}

/// The claims of an email-verification token issued at `now`.
pub open spec fn verify_claims(email: Seq<char>, now: u64, cfg: AuthConfig) -> ClaimsView {
    ClaimsView {
        kind: TokenKind::Verify,
        sub: 0,
        email,
        iat: now,
        exp: (now + cfg.verify_ttl) as u64,
    }
}

/// Issues a password-reset token scoped to one email address. The token
/// carries the fingerprint of the account's current credential, so it can be
/// consumed at most once to effect: after the reset the fingerprint no
/// longer matches. An unknown email is `NotFound`.
pub fn issue_reset_token(store: &Store, email: &str, now: u64, cfg: &AuthConfig) -> (r: Result<
    String,
    ErrorKind,
>)
    requires
        store.wf(),
        cfg.wf(),
        now + cfg.reset_ttl <= u64::MAX,
    ensures
        ({
            let users = store.user_seq();
            let i = spec_user_index_by_email(users, email@);
            match r {
                Ok(t) => has_email(users, email@) && encode_utf8(t@) == spec_encode(
                    reset_claims(
                        email@,
                        credential_fingerprint(users[i].password@),
                        now,
                        *cfg,
                    ),
                    cfg.secret,
                ) && is_ascii_chars(t@),
                Err(e) => e == ErrorKind::NotFound && !has_email(users, email@),
            }
        }),
{
    let user = match store.get_by_email(email) {
        Some(u) => u,
        None => {
            return Err(ErrorKind::NotFound);
        },
    };
    proof {
        let w = choose|i: int|
            0 <= i < store.user_seq().len() && #[trigger] store.user_seq()[i] == *user
                && user.email@ == email@;
        lemma_user_email_index_unique(store.user_seq(), w);
    }
    let fp = fingerprint_of(user.password.as_str());
    let claims = TokenClaims {
        kind: TokenKind::Reset,
        sub: fp,
        email: email.to_owned(),
        iat: now,
        exp: now + cfg.reset_ttl,
    };
    Ok(encode(&claims, cfg.secret))
}

/// Issues an email-verification token scoped to one email address.
pub fn issue_verification_token(email: &str, now: u64, cfg: &AuthConfig) -> (r: String)
    requires
        cfg.wf(),
        now + cfg.verify_ttl <= u64::MAX,
    ensures
        encode_utf8(r@) == spec_encode(verify_claims(email@, now, *cfg), cfg.secret),
        is_ascii_chars(r@),
{
    let claims = TokenClaims {
        kind: TokenKind::Verify,
        sub: 0,
        email: email.to_owned(),
        iat: now,
        exp: now + cfg.verify_ttl,
    };
    encode(&claims, cfg.secret)
}

/// What consuming an out-of-band token decides, for the expected purpose:
/// codec errors pass through, any other namespace is `WrongPurpose`, an
/// email no longer in the store is `NotFound`, and otherwise the operation
/// proceeds for that email's account.
pub open spec fn spec_consume(
    users: Seq<User>,
    b: Seq<u8>,
    purpose: TokenKind,
    key: u64,
    now: u64,
) -> Result<ClaimsView, ErrorKind> {
    match spec_decode(b, key, now) {
        Err(e) => Err(e),
        Ok(c) => if c.kind != purpose {
            Err(ErrorKind::WrongPurpose)
        } else if !has_email(users, c.email) {
            Err(ErrorKind::NotFound)
        } else {
            Ok(c)
        },
    }
}

/// What consuming a password-reset token decides: as `spec_consume` for the
/// reset purpose, and additionally `StaleCredential` when the fingerprint
/// the token carries no longer matches the account's stored credential —
/// which is what spends a token once the reset it authorized has happened.
pub open spec fn spec_consume_reset(users: Seq<User>, b: Seq<u8>, key: u64, now: u64) -> Result<
    ClaimsView,
    ErrorKind,
> {
    match spec_consume(users, b, TokenKind::Reset, key, now) {
        Err(e) => Err(e),
        Ok(c) => if credential_fingerprint(
            users[spec_user_index_by_email(users, c.email)].password@,
        ) != c.sub {
            Err(ErrorKind::StaleCredential)
        } else {
            Ok(c)
        },
    }
}

/// Consumes a password-reset token: on success the account scoped by the
/// token's email gets the digest of the new password, which invalidates the
/// credential the token was issued against.
pub fn consume_reset_token(store: &mut Store, token: &str, new_password: &str, now: u64, cfg:
    &AuthConfig) -> (r: Result<(), ErrorKind>)
    requires
        old(store).wf(),
    ensures
        final(store).wf(),
        final(store).post_seq() == old(store).post_seq(),
        match r {
            Ok(()) => ({
                let users = old(store).user_seq();
                let c = spec_consume_reset(users, encode_utf8(token@), cfg.secret, now);
                &&& c is Ok
                &&& ({
                    let i = spec_user_index_by_email(users, c->Ok_0.email);
                    &&& final(store).user_seq().len() == users.len()
                    &&& (forall|j: int|
                        0 <= j < users.len() && j != i ==> final(store).user_seq()[j] == #[trigger]
                        users[j])
                    &&& final(store).user_seq()[i].password@ == ascii_chars(
                        password_digest(new_password@),
                    )
                    &&& final(store).user_seq()[i].updated_at == Some(now)
                    &&& final(store).user_seq()[i] == (User {
                        password: final(store).user_seq()[i].password,
                        updated_at: Some(now),
                        ..users[i]
                    })
                })
            }),
            Err(e) => spec_consume_reset(
                old(store).user_seq(),
                encode_utf8(token@),
                cfg.secret,
                now,
            ) == Err::<ClaimsView, ErrorKind>(e) && *final(store) == *old(store),
        },
{
    let claims = match decode(token, cfg.secret, now) {
        Ok(c) => c,
        Err(e) => {
            return Err(e);
        },
    };
    match claims.kind {
        TokenKind::Reset => {},
        _ => {
            return Err(ErrorKind::WrongPurpose);
        },
    }
    let id = match store.get_by_email(claims.email.as_str()) {
        Some(u) => {
            proof {
                let w = choose|i: int|
                    0 <= i < store.user_seq().len() && #[trigger] store.user_seq()[i] == *u
                        && u.email@ == claims.email@;
                lemma_user_email_index_unique(store.user_seq(), w);
            }
            if fingerprint_of(u.password.as_str()) != claims.sub {
                return Err(ErrorKind::StaleCredential);
            }
            u.id
        },
        None => {
            return Err(ErrorKind::NotFound);
        },
    };
    let digest = hash_password(new_password);
    let ghost dval = digest;
    let ghost pre = *store;
    let r = store.update_password_hash(id, digest, now);
    proof {
        if r is Ok {
            let i = choose|i: int|
                0 <= i < pre.user_seq().len() && #[trigger] pre.user_seq()[i].id == id && store
                    .user_seq() == pre.user_seq().update(
                    i,
                    User { password: dval, updated_at: Some(now), ..pre.user_seq()[i] },
                );
            let j = spec_user_index_by_email(pre.user_seq(), claims.email@);
            if i < j {
                assert(pre.user_seq()[i].id != pre.user_seq()[j].id);
            } else if j < i {
                assert(pre.user_seq()[j].id != pre.user_seq()[i].id);
            }
        }
    }
    r
}

/// Consumes an email-verification token: on success the account scoped by
/// the token's email is marked verified.
pub fn consume_verification_token(store: &mut Store, token: &str, now: u64, cfg: &AuthConfig) -> (r:
    Result<(), ErrorKind>)
    requires
        old(store).wf(),
    ensures
        final(store).wf(),
        final(store).post_seq() == old(store).post_seq(),
        match r {
            Ok(()) => ({
                let users = old(store).user_seq();
                let c = spec_consume(
                    users,
                    encode_utf8(token@),
                    TokenKind::Verify,
                    cfg.secret,
                    now,
                );
                &&& c is Ok
                &&& ({
                    let i = spec_user_index_by_email(users, c->Ok_0.email);
                    final(store).user_seq() == users.update(
                        i,
                        User { verified: true, updated_at: Some(now), ..users[i] },
                    )
                })
            }),
            Err(e) => spec_consume(
                old(store).user_seq(),
                encode_utf8(token@),
                TokenKind::Verify,
                cfg.secret,
                now,
            ) == Err::<ClaimsView, ErrorKind>(e) && *final(store) == *old(store),
        },
{
    let claims = match decode(token, cfg.secret, now) {
        Ok(c) => c,
        Err(e) => {
            return Err(e);
        },
    };
    match claims.kind {
        TokenKind::Verify => {},
        _ => {
            return Err(ErrorKind::WrongPurpose);
        },
    }
    let id = match store.get_by_email(claims.email.as_str()) {
        Some(u) => {
            proof {
                let w = choose|i: int|
                    0 <= i < store.user_seq().len() && #[trigger] store.user_seq()[i] == *u
                        && u.email@ == claims.email@;
                lemma_user_email_index_unique(store.user_seq(), w);
            }
            u.id
        },
        None => {
            return Err(ErrorKind::NotFound);
        },
    };
    let ghost pre = *store;
    let r = store.set_verified(id, now);
    proof {
        if r is Ok {
            let i = choose|i: int|
                0 <= i < pre.user_seq().len() && #[trigger] pre.user_seq()[i].id == id && store
                    .user_seq() == pre.user_seq().update(
                    i,
                    User { verified: true, updated_at: Some(now), ..pre.user_seq()[i] },
                );
            let j = spec_user_index_by_email(pre.user_seq(), claims.email@);
            if i < j {
                assert(pre.user_seq()[i].id != pre.user_seq()[j].id);
            } else if j < i {
                assert(pre.user_seq()[j].id != pre.user_seq()[i].id);
            }
        }
    }
    r
}

/// The purpose law: a password-reset token presented to the verification
/// flow fails with `WrongPurpose`, and an email-verification token presented
/// to the reset flow fails the same way — both while validly signed and
/// unexpired, whatever the store holds and whatever fingerprint the reset
/// token carries.
pub proof fn lemma_purposes_never_cross(
    users: Seq<User>,
    email: Seq<char>,
    fp: u128,
    now0: u64,
    now: u64,
    cfg: AuthConfig,
)
    requires
        cfg.wf(),
        now0 + cfg.reset_ttl <= u64::MAX,
        now0 + cfg.verify_ttl <= u64::MAX,
        now < now0 + cfg.reset_ttl,
        now < now0 + cfg.verify_ttl,
    ensures
        spec_consume(
            users,
            spec_encode(reset_claims(email, fp, now0, cfg), cfg.secret),
            TokenKind::Verify,
            cfg.secret,
            now,
        ) == Err::<ClaimsView, ErrorKind>(ErrorKind::WrongPurpose),
        spec_consume_reset(
            users,
            spec_encode(verify_claims(email, now0, cfg), cfg.secret),
            cfg.secret,
            now,
        ) == Err::<ClaimsView, ErrorKind>(ErrorKind::WrongPurpose),
{
    assert(wf_claims(reset_claims(email, fp, now0, cfg)));
    assert(wf_claims(verify_claims(email, now0, cfg)));
    lemma_decode_encode(reset_claims(email, fp, now0, cfg), cfg.secret, now);
    lemma_decode_encode(verify_claims(email, now0, cfg), cfg.secret, now);
}

/// The replay law: a reset token is spent by use. Once the account's stored
/// credential has a fingerprint other than the one the token carries — as
/// after the reset the token authorized, with a password whose digest
/// differs — the same token is refused with `StaleCredential`, although it
/// is still validly signed and unexpired.
pub proof fn lemma_reset_token_spent_by_use(
    users: Seq<User>,
    email: Seq<char>,
    fp: u128,
    now0: u64,
    now: u64,
    cfg: AuthConfig,
)
    requires
        forall|a: int, b: int|
            0 <= a < b < users.len() ==> #[trigger] users[a].email@ != #[trigger] users[b].email@,
        has_email(users, email),
        credential_fingerprint(users[spec_user_index_by_email(users, email)].password@) != fp,
        cfg.wf(),
        now0 + cfg.reset_ttl <= u64::MAX,
        now < now0 + cfg.reset_ttl,
    ensures
        spec_consume_reset(
            users,
            spec_encode(reset_claims(email, fp, now0, cfg), cfg.secret),
            cfg.secret,
            now,
        ) == Err::<ClaimsView, ErrorKind>(ErrorKind::StaleCredential),
{
    assert(wf_claims(reset_claims(email, fp, now0, cfg)));
    lemma_decode_encode(reset_claims(email, fp, now0, cfg), cfg.secret, now);
}

} // verus!
