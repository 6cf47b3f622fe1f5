//! The auth guard: extracts the bearer token from a request, validates it
//! through the token codec, refuses anything but the access namespace, and
//! resolves the subject against the credential store. The store lookup is
//! the only step touching shared state; everything else is pure.

use vstd::prelude::*;

use crate::errors::ErrorKind;
use crate::session::AuthConfig;
use crate::store::{Store, User};
use crate::token::{decode, spec_decode, string_from_ascii, TokenKind};
use vstd::utf8::{encode_utf8, is_ascii_chars, is_ascii_chars_encode_utf8};

verus! {

/// The view of an optional request string.
pub open spec fn opt_view(o: Option<&str>) -> Option<Seq<char>> {
    match o {
        Some(s) => Some(s@),
        None => None,
    }
}

/// Whether a header value is `Bearer ` followed by a token.
pub open spec fn has_bearer_prefix(h: Seq<char>) -> bool {
    h.len() >= 7 && h.subrange(0, 7) == seq!['B', 'e', 'a', 'r', 'e', 'r', ' ']
}

/// Where the guard takes its token from: an ASCII `Authorization: Bearer`
/// header first, the token cookie second; absence of both is
/// `MissingCredential`.
pub open spec fn spec_extract(h: Option<Seq<char>>, c: Option<Seq<char>>) -> Result<
    Seq<char>,
    ErrorKind,
> {
    if h matches Some(hs) && is_ascii_chars(hs) && has_bearer_prefix(hs) {
        Ok(h.unwrap().skip(7))
    } else if c is Some {
        Ok(c.unwrap())
    } else {
        Err(ErrorKind::MissingCredential)
    }
}

/// Pulls the bearer token out of the request's header or cookie.
pub fn extract_token(auth_header: Option<&str>, cookie_token: Option<&str>) -> (r: Result<
    String,
    ErrorKind,
>)
    ensures
        match r {
            Ok(t) => spec_extract(opt_view(auth_header), opt_view(cookie_token)) == Ok::<
                Seq<char>,
                ErrorKind,
            >(t@),
            Err(e) => spec_extract(opt_view(auth_header), opt_view(cookie_token)) == Err::<
                Seq<char>,
                ErrorKind,
            >(e),
        },
{
    if let Some(h) = auth_header {
        if h.is_ascii() {
            let b: &[u8] = h.as_bytes();
            proof {
                is_ascii_chars_encode_utf8(h@);
            }
            if b.len() >= 7 && b[0] == 66 && b[1] == 101 && b[2] == 97 && b[3] == 114 && b[4]
                == 101 && b[5] == 114 && b[6] == 32 {
                proof {
                    assert forall|i: int| 0 <= i < 7 implies h@.subrange(0, 7)[i] == seq![
                        'B',
                        'e',
                        'a',
                        'r',
                        'e',
                        'r',
                        ' ',
                    ][i] by {
                        assert(h@[i] as u8 == b@[i]);
                        assert('\0' <= h@[i] && h@[i] <= '\u{7f}');
                    }
                    assert(h@.subrange(0, 7) =~= seq!['B', 'e', 'a', 'r', 'e', 'r', ' ']);
                }
                let mut rest: Vec<u8> = Vec::new();
                let mut i: usize = 7;
                proof {
                    assert(b@.subrange(7, 7) =~= Seq::<u8>::empty());
                }
                while i < b.len()
                    invariant
                        7 <= i <= b@.len(),
                        b@ == encode_utf8(h@),
                        is_ascii_chars(h@),
                        rest@ == b@.subrange(7, i as int),
                    decreases b@.len() - i,
                {
                    let c = b[i];
                    rest.push(c);
                    i = i + 1;
                    proof {
                        assert(b@.subrange(7, i as int) =~= b@.subrange(7, i - 1) + seq![c]);
                    }
                }
                proof {
                    assert forall|k: int| 0 <= k < rest@.len() implies #[trigger] rest@[k]
                        < 128 by {
                        assert(rest@[k] == b@[7 + k]);
                        assert(h@[7 + k] as u8 == b@[7 + k]);
                        assert('\0' <= h@[7 + k] && h@[7 + k] <= '\u{7f}');
                    }
                }
                let t = string_from_ascii(rest);
                proof {
                    assert forall|k: int| 0 <= k < t@.len() implies t@[k] == h@.skip(7)[k] by {
                        assert(t@[k] == (rest@[k] as char));
                        assert(rest@[k] == b@[7 + k]);
                        assert(h@[7 + k] as u8 == b@[7 + k]);
                        assert('\0' <= h@[7 + k] && h@[7 + k] <= '\u{7f}');
                        assert(((h@[7 + k] as u8) as char) == h@[7 + k]);
                    }
                    assert(t@ =~= h@.skip(7));
                }
                return Ok(t);
            }
        }
    }
    if let Some(c) = cookie_token {
        return Ok(c.to_owned());
    }
    Err(ErrorKind::MissingCredential)
}

/// The index of the stored user with this id (meaningful under the store's
/// uniqueness invariant when such a user exists).
pub open spec fn spec_user_index(s: Seq<User>, id: u128) -> int {
    choose|i: int| 0 <= i < s.len() && s[i].id == id
}

pub proof fn lemma_user_index_unique(s: Seq<User>, i: int)
    requires
        forall|a: int, b: int| 0 <= a < b < s.len() ==> #[trigger] s[a].id != #[trigger] s[b].id,
        0 <= i < s.len(),
    ensures
        spec_user_index(s, s[i].id) == i,
{
    let j = spec_user_index(s, s[i].id);
    assert(0 <= j < s.len() && s[j].id == s[i].id);
    if i < j {
        assert(s[i].id != s[j].id);
    } else if j < i {
        assert(s[j].id != s[i].id);
    }
}

/// What the guard decides for any token byte content: codec errors pass
/// through, non-access namespaces are refused with `InvalidNamespace`, a
/// subject no longer in the store is `StaleCredential`, and otherwise the
/// stored identity is admitted.
pub open spec fn spec_authenticate(users: Seq<User>, b: Seq<u8>, key: u64, now: u64) -> Result<
    User,
    ErrorKind,
> {
    match spec_decode(b, key, now) {
        Err(e) => Err(e),
        Ok(c) => if c.kind != TokenKind::Access {
            Err(ErrorKind::InvalidNamespace)
        } else if !(exists|i: int| 0 <= i < users.len() && #[trigger] users[i].id == c.sub) {
            Err(ErrorKind::StaleCredential)
        } else {
            Ok(users[spec_user_index(users, c.sub)])
        },
    }
}

/// Validates a presented token and resolves the identity it names.
pub fn authenticate(store: &Store, token: &str, now: u64, cfg: &AuthConfig) -> (r: Result<
    User,
    ErrorKind,
>)
    requires
        store.wf(),
    ensures
        match r {
            Ok(u) => spec_authenticate(store.user_seq(), encode_utf8(token@), cfg.secret, now)
                == Ok::<User, ErrorKind>(u),
            Err(e) => spec_authenticate(store.user_seq(), encode_utf8(token@), cfg.secret, now)
                == Err::<User, ErrorKind>(e),
        },
{
    let claims = match decode(token, cfg.secret, now) {
        Ok(c) => c,
        Err(e) => {
            return Err(e);
        },
    };
    match claims.kind {
        TokenKind::Access => {},
        _ => {
            return Err(ErrorKind::InvalidNamespace);
        },
    }
    match store.get_by_id(claims.sub) {
        Some(u) => {
            proof {
                let w = choose|i: int|
                    0 <= i < store.user_seq().len() && #[trigger] store.user_seq()[i] == *u
                        && u.id == claims.sub;
                lemma_user_index_unique(store.user_seq(), w);
            }
            Ok(u.duplicate())
        },
        None => Err(ErrorKind::StaleCredential),
    }
}

/// The namespace law: a refresh token — validly signed and unexpired — is
/// always refused by the guard with `InvalidNamespace`, whatever the store
/// holds.
pub proof fn lemma_guard_rejects_refresh(
    users: Seq<User>,
    c: crate::token::ClaimsView,
    key: u64,
    now: u64,
)
    requires
        crate::token::wf_claims(c),
        c.kind == TokenKind::Refresh,
        now < c.exp,
    ensures
        spec_authenticate(users, crate::token::spec_encode(c, key), key, now) == Err::<
            User,
            ErrorKind,
        >(ErrorKind::InvalidNamespace),
{
    crate::token::lemma_decode_encode(c, key, now);
}

} // verus!
