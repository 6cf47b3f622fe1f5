//! The token codec: a signed, time-bounded claim set rendered to and from an
//! opaque ASCII string.
//!
//! Wire layout, in bytes: one namespace byte, 32 hex digits of the subject id,
//! 16 hex digits of the issued-at instant, 16 hex digits of the expiry
//! instant, two hex digits for each UTF-8 byte of the target email, and 16
//! hex digits of the integrity tag over everything before it — so the whole
//! token is URL-safe ASCII. The tag is a 64-bit polynomial
//! digest keyed with the process-held secret; it defends against accidental
//! corruption and casual tampering, not against a cryptographic adversary —
//! deployments wanting the latter should swap the tag function at this one
//! point.

use vstd::prelude::*;

use crate::errors::ErrorKind;
use crate::hex::{
    all_hex, hex_byte_val, hex_of, hex_val, lemma_hex_of_ascii, lemma_hex_of_val, lemma_pow16_32,
    parse_hex, pow16, push_hex,
};
use vstd::utf8::{
    decode_utf8, encode_utf8, encode_utf8_decode_utf8, encode_utf8_valid_utf8, is_ascii_chars,
    is_ascii_chars_encode_utf8, valid_utf8,
};

verus! {

/// The namespace discriminant embedded in every token, keeping access,
/// refresh, password-reset and email-verification tokens non-interchangeable.
#[derive(Clone, Copy, Debug, PartialEq, Eq, Structural)]
pub enum TokenKind {
    Access,
    Refresh,
    Reset,
    Verify,
}

/// The decoded content of a signed token. Session tokens carry the subject
/// id and an empty email; out-of-band tokens carry the target email and a
/// zero subject.
#[derive(Debug)]
pub struct TokenClaims {
    pub kind: TokenKind,
    pub sub: u128,
    pub email: String,
    pub iat: u64,
    pub exp: u64,
}

/// The mathematical content of a claim set.
pub struct ClaimsView {
    pub kind: TokenKind,
    pub sub: u128,
    pub email: Seq<char>,
    pub iat: u64,
    pub exp: u64,
}

impl View for TokenClaims {
    type V = ClaimsView;

    open spec fn view(&self) -> ClaimsView {
        ClaimsView {
            kind: self.kind,
            sub: self.sub,
            email: self.email@,
            iat: self.iat,
            exp: self.exp,
        }
    }
}

/// A claim set the codec can carry: expiry strictly after issuance.
pub open spec fn wf_claims(c: ClaimsView) -> bool {
    c.iat < c.exp
}

/// The characters of an ASCII byte sequence.
pub open spec fn ascii_chars(b: Seq<u8>) -> Seq<char> {
    Seq::new(b.len(), |i: int| b[i] as char)
}

/// Whether every byte is ASCII.
pub open spec fn all_ascii(b: Seq<u8>) -> bool {
    forall|i: int| 0 <= i < b.len() ==> #[trigger] b[i] < 128
}

pub proof fn lemma_ascii_chars_of_bytes(b: Seq<u8>)
    requires
        all_ascii(b),
    ensures
        is_ascii_chars(ascii_chars(b)),
        encode_utf8(ascii_chars(b)) =~= b,
{
    assert forall|i: int| 0 <= i < b.len() implies '\0' <= #[trigger] ascii_chars(b)[i]
        && ascii_chars(b)[i] <= '\u{7f}' by {
        assert(b[i] < 128);
    }
    is_ascii_chars_encode_utf8(ascii_chars(b));
    assert(encode_utf8(ascii_chars(b)) =~= b);
}


/// One step of the keyed polynomial digest.
pub open spec fn tag_step(h: u64, b: u8) -> u64 {
    ((((h as int) * 31) + (b as int)) % 0x10000000000000000) as u64
}

/// The keyed polynomial digest of a byte sequence.
pub open spec fn tag_of(key: u64, s: Seq<u8>) -> u64
    decreases s.len(),
{
    if s.len() == 0 {
        key
    } else {
        tag_step(tag_of(key, s.drop_last()), s.last())
    }
}

/// Computes the digest of `b[lo..hi]`.
pub fn tag_range(b: &[u8], lo: usize, hi: usize, key: u64) -> (r: u64)
    requires
        lo <= hi <= b@.len(),
    ensures
        r == tag_of(key, b@.subrange(lo as int, hi as int)),
{
    let mut h: u64 = key;
    let mut i: usize = lo;
    proof {
        assert(b@.subrange(lo as int, lo as int) =~= Seq::<u8>::empty());
    }
    while i < hi
        invariant
            lo <= i <= hi <= b@.len(),
            h == tag_of(key, b@.subrange(lo as int, i as int)),
        decreases hi - i,
    {
        let c = b[i];
        let t: u128 = (h as u128) * 31 + (c as u128);
        h = (t % 0x10000000000000000) as u64;
        i = i + 1;
        proof {
            assert(b@.subrange(lo as int, i as int).drop_last() =~= b@.subrange(
                lo as int,
                i - 1,
            ));
            assert(b@.subrange(lo as int, i as int).last() == c);
        }
    }
    proof {
        assert(b@.subrange(lo as int, i as int) =~= b@.subrange(lo as int, hi as int));
    }
    h
}

/// Two lowercase hex digits for each byte, in order.
pub open spec fn hex_pairs(b: Seq<u8>) -> Seq<u8>
    decreases b.len(),
{
    if b.len() == 0 {
        Seq::empty()
    } else {
        hex_pairs(b.drop_last()) + hex_of(b.last() as int, 2)
    }
}

/// The bytes a sequence of hex digit pairs stands for (meaningful when the
/// length is even).
pub open spec fn pair_bytes(s: Seq<u8>) -> Seq<u8>
    decreases s.len(),
{
    if s.len() < 2 {
        Seq::empty()
    } else {
        pair_bytes(s.drop_last().drop_last()) + seq![
            (16 * hex_byte_val(s[s.len() - 2]) + hex_byte_val(s.last())) as u8,
        ]
    }
}

/// Rendering bytes as hex pairs doubles the length, yields hex digits only,
/// and is inverted exactly by `pair_bytes`.
pub proof fn lemma_hex_pairs(b: Seq<u8>)
    ensures
        hex_pairs(b).len() == 2 * b.len(),
        all_hex(hex_pairs(b)),
        pair_bytes(hex_pairs(b)) =~= b,
    decreases b.len(),
{
    assert(pow16(2) == 256) by {
        reveal_with_fuel(pow16, 3);
    };
    if b.len() > 0 {
        lemma_hex_pairs(b.drop_last());
        let h = hex_of(b.last() as int, 2);
        lemma_hex_of_val(b.last() as int, 2);
        let w = hex_pairs(b);
        assert(w.drop_last().drop_last() =~= hex_pairs(b.drop_last()));
        assert(h.drop_last() =~= hex_of((b.last() as int) / 16, 1));
        assert(hex_val(h) == 16 * hex_val(h.drop_last()) + hex_byte_val(h.last()));
        assert(hex_val(h.drop_last()) == hex_byte_val(h[0]));
        assert(w[w.len() - 2] == h[0] && w.last() == h[1]);
        assert(16 * hex_byte_val(w[w.len() - 2]) + hex_byte_val(w.last()) == b.last() as int);
        assert(forall|i: int|
            0 <= i < w.len() - 2 ==> w[i] == #[trigger] hex_pairs(b.drop_last())[i]);
    }
}

/// The namespace byte for each token kind.
pub open spec fn kind_byte(k: TokenKind) -> u8 {
    match k {
        TokenKind::Access => 97,
        TokenKind::Refresh => 114,
        TokenKind::Reset => 112,
        TokenKind::Verify => 118,
    }
}

pub open spec fn valid_kind_byte(b: u8) -> bool {
    b == 97 || b == 114 || b == 112 || b == 118
}

pub open spec fn kind_of_byte(b: u8) -> TokenKind {
    if b == 97 {
        TokenKind::Access
    } else if b == 114 {
        TokenKind::Refresh
    } else if b == 112 {
        TokenKind::Reset
    } else {
        TokenKind::Verify
    }
}

/// The unsigned part of a token: namespace, subject, instants, and the
/// email's UTF-8 bytes rendered as hex pairs.
pub open spec fn payload_of(c: ClaimsView) -> Seq<u8> {
    seq![kind_byte(c.kind)] + hex_of(c.sub as int, 32) + hex_of(c.iat as int, 16) + hex_of(
        c.exp as int,
        16,
    ) + hex_pairs(encode_utf8(c.email))
}

/// The byte sequence `encode` produces: the payload followed by its tag.
pub open spec fn spec_encode(c: ClaimsView, key: u64) -> Seq<u8> {
    payload_of(c) + hex_of(tag_of(key, payload_of(c)) as int, 16)
}

/// Whether a byte sequence has the shape of a token.
pub open spec fn parse_ok(b: Seq<u8>) -> bool {
    &&& b.len() >= 81
    &&& (b.len() - 81) % 2 == 0
    &&& valid_kind_byte(b[0])
    &&& all_hex(b.subrange(1, 33))
    &&& all_hex(b.subrange(33, 49))
    &&& all_hex(b.subrange(49, 65))
    &&& all_hex(b.subrange(65, b.len() - 16))
    &&& all_hex(b.subrange(b.len() - 16, b.len() as int))
    &&& hex_val(b.subrange(33, 49)) < hex_val(b.subrange(49, 65))
    &&& valid_utf8(pair_bytes(b.subrange(65, b.len() - 16)))
}

/// The claim set a well-shaped byte sequence carries.
pub open spec fn parsed_claims(b: Seq<u8>) -> ClaimsView {
    ClaimsView {
        kind: kind_of_byte(b[0]),
        sub: hex_val(b.subrange(1, 33)) as u128,
        email: decode_utf8(pair_bytes(b.subrange(65, b.len() - 16))),
        iat: hex_val(b.subrange(33, 49)) as u64,
        exp: hex_val(b.subrange(49, 65)) as u64,
    }
}

/// What `decode` returns on any byte sequence: `Malformed` when the shape is
/// wrong, `SignatureInvalid` when the tag does not match, `Expired` at or
/// past the embedded expiry, and the claims otherwise.
pub open spec fn spec_decode(b: Seq<u8>, key: u64, now: u64) -> Result<ClaimsView, ErrorKind> {
    if !parse_ok(b) {
        Err(ErrorKind::Malformed)
    } else if hex_val(b.subrange(b.len() - 16, b.len() as int)) != tag_of(
        key,
        b.subrange(0, b.len() - 16),
    ) {
        Err(ErrorKind::SignatureInvalid)
    } else if now >= parsed_claims(b).exp {
        Err(ErrorKind::Expired)
    } else {
        Ok(parsed_claims(b))
    }
}

/// Relies on `String::from_utf8`: a sequence of bytes below 0x80 is valid
/// UTF-8 and decodes to the characters with the same code points, so the
/// `Err` arm is unreachable for inputs this contract admits.
#[verifier::external_body]
pub(crate) fn string_from_ascii(v: Vec<u8>) -> (r: String)
    requires
        all_ascii(v@),
    ensures
        r@ == ascii_chars(v@),
{
    match String::from_utf8(v) {
        Ok(s) => s,
        Err(_) => String::new(),
    }
}

/// Relies on `String::from_utf8`: it succeeds exactly on valid UTF-8 and
/// returns the string whose UTF-8 byte content is the given bytes.
#[verifier::external_body]
pub(crate) fn string_from_utf8(v: Vec<u8>) -> (r: Option<String>)
    ensures
        match r {
            Some(s) => valid_utf8(v@) && encode_utf8(s@) == v@,
            None => !valid_utf8(v@),
        },
{
    match String::from_utf8(v) {
        Ok(s) => Some(s),
        Err(_) => None,
    }
}

pub proof fn lemma_pow16_16()
    ensures
        pow16(16) == 0x10000000000000000,
{
    reveal_with_fuel(pow16, 17);
}

/// Renders a claim set as a signed, URL-safe ASCII token string.
pub fn encode(c: &TokenClaims, key: u64) -> (r: String)
    ensures
        r@ == ascii_chars(spec_encode(c@, key)),
        encode_utf8(r@) == spec_encode(c@, key),
        is_ascii_chars(r@),
{
    let mut v: Vec<u8> = Vec::new();
    let kb: u8 = match c.kind {
        TokenKind::Access => 97,
        TokenKind::Refresh => 114,
        TokenKind::Reset => 112,
        TokenKind::Verify => 118,
    };
    v.push(kb);
    proof {
        lemma_pow16_32();
        lemma_pow16_16();
    }
    push_hex(&mut v, c.sub, 32);
    push_hex(&mut v, c.iat as u128, 16);
    push_hex(&mut v, c.exp as u128, 16);
    let eb: &[u8] = c.email.as_str().as_bytes();
    let ghost before_email = v@;
    let mut i: usize = 0;
    proof {
        assert(eb@.subrange(0, 0) =~= Seq::<u8>::empty());
    }
    while i < eb.len()
        invariant
            i <= eb@.len(),
            v@ == before_email + hex_pairs(eb@.subrange(0, i as int)),
        decreases eb@.len() - i,
    {
        let b = eb[i];
        proof {
            assert(pow16(2) == 256) by {
                reveal_with_fuel(pow16, 3);
            };
        }
        push_hex(&mut v, b as u128, 2);
        i = i + 1;
        proof {
            assert(eb@.subrange(0, i as int).drop_last() =~= eb@.subrange(0, i - 1));
            assert(eb@.subrange(0, i as int).last() == b);
            assert(hex_pairs(eb@.subrange(0, i as int)) =~= hex_pairs(eb@.subrange(0, i - 1))
                + hex_of(b as int, 2));
        }
    }
    proof {
        assert(eb@.subrange(0, eb@.len() as int) =~= eb@);
        assert(eb@ == encode_utf8(c.email@));
        assert(v@ =~= payload_of(c@));
    }
    let tag = tag_range(v.as_slice(), 0, v.len(), key);
    proof {
        assert(v@.subrange(0, v@.len() as int) =~= v@);
    }
    push_hex(&mut v, tag as u128, 16);
    proof {
        assert(v@ =~= spec_encode(c@, key));
        lemma_payload_ascii(c@, key);
        lemma_ascii_chars_of_bytes(v@);
    }
    string_from_ascii(v)
}

/// Every byte of an encoded token is ASCII.
pub proof fn lemma_payload_ascii(c: ClaimsView, key: u64)
    ensures
        all_ascii(spec_encode(c, key)),
{
    lemma_hex_of_ascii(c.sub as int, 32);
    lemma_hex_of_ascii(c.iat as int, 16);
    lemma_hex_of_ascii(c.exp as int, 16);
    lemma_hex_of_ascii(tag_of(key, payload_of(c)) as int, 16);
    let eb = encode_utf8(c.email);
    lemma_hex_pairs(eb);
    let t = spec_encode(c, key);
    assert forall|i: int| 0 <= i < t.len() implies #[trigger] t[i] < 128 by {
        let p = payload_of(c);
        if i == 0 {
        } else if i < 33 {
            assert(t[i] == hex_of(c.sub as int, 32)[i - 1]);
        } else if i < 49 {
            assert(t[i] == hex_of(c.iat as int, 16)[i - 33]);
        } else if i < 65 {
            assert(t[i] == hex_of(c.exp as int, 16)[i - 49]);
        } else if i < 65 + 2 * eb.len() {
            assert(t[i] == hex_pairs(eb)[i - 65]);
            assert(crate::hex::is_hex_byte(hex_pairs(eb)[i - 65]));
        } else {
            assert(t[i] == hex_of(tag_of(key, p) as int, 16)[i - 65 - 2 * eb.len()]);
        }
    }
}

/// Parses and checks a token string: the result is exactly what
/// `spec_decode` says of the string's byte content.
pub fn decode(s: &str, key: u64, now: u64) -> (r: Result<TokenClaims, ErrorKind>)
    ensures
        match r {
            Ok(c) => spec_decode(encode_utf8(s@), key, now) == Ok::<ClaimsView, ErrorKind>(c@)
                && wf_claims(c@),
            Err(e) => spec_decode(encode_utf8(s@), key, now) == Err::<ClaimsView, ErrorKind>(e),
        },
{
    let b: &[u8] = s.as_bytes();
    let n = b.len();
    if n < 81 {
        return Err(ErrorKind::Malformed);
    }
    let kb = b[0];
    if !(kb == 97 || kb == 114 || kb == 112 || kb == 118) {
        return Err(ErrorKind::Malformed);
    }
    let kind = if kb == 97 {
        TokenKind::Access
    } else if kb == 114 {
        TokenKind::Refresh
    } else if kb == 112 {
        TokenKind::Reset
    } else {
        TokenKind::Verify
    };
    proof {
        lemma_pow16_16();
        crate::hex::lemma_pow16_mono(16, 32);
    }
    let sub = match parse_hex(b, 1, 33) {
        Some(v) => v,
        None => {
            return Err(ErrorKind::Malformed);
        },
    };
    let iat = match parse_hex(b, 33, 49) {
        Some(v) => v as u64,
        None => {
            return Err(ErrorKind::Malformed);
        },
    };
    let exp = match parse_hex(b, 49, 65) {
        Some(v) => v as u64,
        None => {
            return Err(ErrorKind::Malformed);
        },
    };
    if (n - 81) % 2 != 0 {
        return Err(ErrorKind::Malformed);
    }
    let mut email_bytes: Vec<u8> = Vec::new();
    let mut i: usize = 65;
    proof {
        assert(b@.subrange(65, 65) =~= Seq::<u8>::empty());
        assert(pow16(2) == 256) by {
            reveal_with_fuel(pow16, 3);
        };
    }
    while i < n - 16
        invariant
            65 <= i <= n - 16,
            (i - 65) % 2 == 0,
            (n - 81) % 2 == 0,
            n == b@.len(),
            n >= 81,
            b@ == encode_utf8(s@),
            email_bytes@ == pair_bytes(b@.subrange(65, i as int)),
            all_hex(b@.subrange(65, i as int)),
            pow16(2) == 256,
        decreases n - 16 - i,
    {
        proof {
            assert(i + 2 <= n - 16);
        }
        let byte = match parse_hex(b, i, i + 2) {
            Some(v) => v as u8,
            None => {
                proof {
                    let s2 = b@.subrange(i as int, i + 2);
                    assert(exists|k: int| 0 <= k < s2.len() && !crate::hex::is_hex_byte(#[trigger] s2[k]));
                    let k = choose|k: int| 0 <= k < s2.len() && !crate::hex::is_hex_byte(#[trigger] s2[k]);
                    assert(b@.subrange(65, n - 16)[i - 65 + k] == s2[k]);
                    assert(!all_hex(b@.subrange(65, n - 16)));
                    assert(!parse_ok(b@));
                }
                return Err(ErrorKind::Malformed);
            },
        };
        i = i + 2;
        email_bytes.push(byte);
        proof {
            let cur = b@.subrange(65, i as int);
            assert(cur.drop_last().drop_last() =~= b@.subrange(65, i - 2));
            assert(cur[cur.len() - 2] == b@[i - 2] && cur.last() == b@[i - 1]);
            let s2 = b@.subrange(i - 2, i as int);
            assert(s2.drop_last() =~= seq![b@[i - 2]]);
            assert(hex_val(s2) == 16 * hex_val(seq![b@[i - 2]]) + hex_byte_val(b@[i - 1]));
            assert(seq![b@[i - 2]].drop_last() =~= Seq::<u8>::empty());
            assert(hex_val(seq![b@[i - 2]]) == hex_byte_val(b@[i - 2]));
            assert(byte as int == 16 * hex_byte_val(b@[i - 2]) + hex_byte_val(b@[i - 1]));
            assert(email_bytes@ =~= pair_bytes(cur));
            assert forall|k: int| 0 <= k < cur.len() implies crate::hex::is_hex_byte(
                #[trigger] cur[k],
            ) by {
                if k < cur.len() - 2 {
                    assert(cur[k] == b@.subrange(65, i - 2)[k]);
                } else {
                    assert(cur[k] == s2[k - (cur.len() - 2)]);
                }
            }
        }
    }
    let email = match string_from_utf8(email_bytes) {
        Some(s2) => s2,
        None => {
            proof {
                assert(b@.subrange(65, i as int) =~= b@.subrange(65, n - 16));
                assert(!parse_ok(b@));
            }
            return Err(ErrorKind::Malformed);
        },
    };
    let tag = match parse_hex(b, n - 16, n) {
        Some(v) => v as u64,
        None => {
            return Err(ErrorKind::Malformed);
        },
    };
    if iat >= exp {
        return Err(ErrorKind::Malformed);
    }
    proof {
        assert(b@.subrange(65, i as int) =~= b@.subrange(65, n - 16));
        assert(parse_ok(b@));
    }
    let computed = tag_range(b, 0, n - 16, key);
    if tag != computed {
        return Err(ErrorKind::SignatureInvalid);
    }
    if now >= exp {
        return Err(ErrorKind::Expired);
    }
    let claims = TokenClaims { kind, sub, email, iat, exp };
    proof {
        vstd::utf8::encode_utf8_decode_utf8(email@);
        assert(claims@ == parsed_claims(b@));
    }
    Ok(claims)
}

/// Decoding inverts encoding: a token rendered from a well-formed claim set
/// yields exactly those claims before its expiry, and fails with `Expired`
/// at or after it.
pub proof fn lemma_decode_encode(c: ClaimsView, key: u64, now: u64)
    requires
        wf_claims(c),
    ensures
        spec_decode(spec_encode(c, key), key, now) == if now >= c.exp {
            Err::<ClaimsView, ErrorKind>(ErrorKind::Expired)
        } else {
            Ok::<ClaimsView, ErrorKind>(c)
        },
{
    let p = payload_of(c);
    let t = spec_encode(c, key);
    let eb = encode_utf8(c.email);
    lemma_pow16_32();
    lemma_pow16_16();
    lemma_hex_of_val(c.sub as int, 32);
    lemma_hex_of_val(c.iat as int, 16);
    lemma_hex_of_val(c.exp as int, 16);
    lemma_hex_of_val(tag_of(key, p) as int, 16);
    lemma_hex_pairs(eb);
    vstd::utf8::encode_utf8_valid_utf8(c.email);
    vstd::utf8::encode_utf8_decode_utf8(c.email);
    assert(p.len() == 65 + 2 * eb.len());
    assert(t.len() == 81 + 2 * eb.len());
    assert((t.len() - 81) % 2 == 0);
    assert(t[0] == kind_byte(c.kind));
    assert(valid_kind_byte(t[0]) && kind_of_byte(t[0]) == c.kind);
    assert(t.subrange(1, 33) =~= hex_of(c.sub as int, 32));
    assert(t.subrange(33, 49) =~= hex_of(c.iat as int, 16));
    assert(t.subrange(49, 65) =~= hex_of(c.exp as int, 16));
    assert(t.subrange(65, t.len() - 16) =~= hex_pairs(eb));
    assert(t.subrange(t.len() - 16, t.len() as int) =~= hex_of(tag_of(key, p) as int, 16));
    assert(t.subrange(0, t.len() - 16) =~= p);
    assert(pair_bytes(t.subrange(65, t.len() - 16)) =~= eb);
    assert(valid_utf8(pair_bytes(t.subrange(65, t.len() - 16))));
    assert(parse_ok(t));
    assert(parsed_claims(t).kind == c.kind);
    assert(parsed_claims(t).sub == c.sub);
    assert(parsed_claims(t).iat == c.iat);
    assert(parsed_claims(t).exp == c.exp);
    assert(parsed_claims(t).email =~= c.email);
    assert(parsed_claims(t) == c);
}

} // verus!
