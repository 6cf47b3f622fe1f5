//! Fixed-width lowercase hexadecimal rendering of unsigned values, used by the
//! token wire format. Every helper is stated against a small recursive model so
//! that rendering and parsing invert each other exactly.

use vstd::prelude::*;

verus! {

/// 16 raised to the given power.
pub open spec fn pow16(w: nat) -> int
    decreases w,
{
    if w == 0 {
        1
    } else {
        16 * pow16((w - 1) as nat)
    }
}

/// The ASCII byte for one hex digit value (lowercase alphabet).
pub open spec fn hex_digit(d: int) -> u8 {
    if d < 10 {
        (48 + d) as u8
    } else {
        (87 + d) as u8
    }
}

/// Whether a byte is a lowercase hex digit.
pub open spec fn is_hex_byte(b: u8) -> bool {
    (48 <= b && b < 58) || (97 <= b && b < 103)
}

/// The value of one hex digit byte.
pub open spec fn hex_byte_val(b: u8) -> int {
    if 48 <= b && b < 58 {
        b - 48
    } else {
        b - 87
    }
}

/// The fixed-width hex rendering of `n`, most significant digit first.
pub open spec fn hex_of(n: int, w: nat) -> Seq<u8>
    decreases w,
{
    if w == 0 {
        Seq::empty()
    } else {
        hex_of(n / 16, (w - 1) as nat) + seq![hex_digit(n % 16)]
    }
}

/// Whether every byte of the sequence is a hex digit.
pub open spec fn all_hex(b: Seq<u8>) -> bool {
    forall|i: int| 0 <= i < b.len() ==> is_hex_byte(#[trigger] b[i])
}

/// The value of a sequence of hex digit bytes, most significant first.
pub open spec fn hex_val(b: Seq<u8>) -> int
    decreases b.len(),
{
    if b.len() == 0 {
        0
    } else {
        16 * hex_val(b.drop_last()) + hex_byte_val(b.last())
    }
}

pub proof fn lemma_pow16_pos(w: nat)
    ensures
        pow16(w) >= 1,
    decreases w,
{
    if w > 0 {
        lemma_pow16_pos((w - 1) as nat);
    }
}

/// Rendering a value below `16^w` in width `w` gives `w` hex digits whose
/// value is the original number.
pub proof fn lemma_hex_of_val(n: int, w: nat)
    requires
        0 <= n < pow16(w),
    ensures
        hex_of(n, w).len() == w,
        all_hex(hex_of(n, w)),
        hex_val(hex_of(n, w)) == n,
    decreases w,
{
    if w == 0 {
    } else {
        let prefix = hex_of(n / 16, (w - 1) as nat);
        lemma_pow16_pos((w - 1) as nat);
        assert(n / 16 < pow16((w - 1) as nat)) by {
            assert(n < 16 * pow16((w - 1) as nat));
        };
        lemma_hex_of_val(n / 16, (w - 1) as nat);
        let whole = hex_of(n, w);
        assert(whole.drop_last() =~= prefix);
        assert(whole.last() == hex_digit(n % 16));
        assert(is_hex_byte(hex_digit(n % 16)));
        assert(hex_byte_val(hex_digit(n % 16)) == n % 16);
        assert(hex_val(whole) == 16 * (n / 16) + n % 16);
    }
}

/// Hex digits are printable ASCII, so the token strings stay ASCII.
pub proof fn lemma_hex_of_ascii(n: int, w: nat)
    ensures
        hex_of(n, w).len() == w,
        forall|i: int|
            0 <= i < w ==> 48 <= #[trigger] hex_of(n, w)[i] && hex_of(n, w)[i] < 128,
    decreases w,
{
    if w > 0 {
        lemma_hex_of_ascii(n / 16, (w - 1) as nat);
        assert(hex_of(n, w).drop_last() =~= hex_of(n / 16, (w - 1) as nat));
        assert(forall|i: int|
            0 <= i < w - 1 ==> #[trigger] hex_of(n, w)[i] == hex_of(n / 16, (w - 1) as nat)[i]);
    }
}

/// Appends the `w`-digit hex rendering of `n` to `out`.
pub fn push_hex(out: &mut Vec<u8>, n: u128, w: usize)
    requires
        (n as int) < pow16(w as nat),
    ensures
        final(out)@ == old(out)@ + hex_of(n as int, w as nat),
    decreases w,
{
    if w == 0 {
        assert(out@ =~= old(out)@ + hex_of(n as int, 0));
    } else {
        proof {
            lemma_pow16_pos((w - 1) as nat);
            assert((n as int) / 16 < pow16((w - 1) as nat)) by {
                assert((n as int) < 16 * pow16((w - 1) as nat));
            };
        }
        push_hex(out, n / 16, w - 1);
        let d: u8 = (n % 16) as u8;
        let b: u8 = if d < 10 {
            48 + d
        } else {
            87 + d
        };
        assert(b == hex_digit((n as int) % 16));
        out.push(b);
        assert(out@ =~= old(out)@ + hex_of(n as int, w as nat));
    }
}

/// Parses the hex digits of `b[lo..hi]`; `None` exactly when some byte there
/// is not a lowercase hex digit.
pub fn parse_hex(b: &[u8], lo: usize, hi: usize) -> (r: Option<u128>)
    requires
        lo <= hi <= b@.len(),
        hi - lo <= 32,
    ensures
        match r {
            Some(v) => all_hex(b@.subrange(lo as int, hi as int)) && v as int == hex_val(
                b@.subrange(lo as int, hi as int),
            ) && (v as int) < pow16((hi - lo) as nat),
            None => !all_hex(b@.subrange(lo as int, hi as int)),
        },
{
    let mut acc: u128 = 0;
    let mut i: usize = lo;
    proof {
        assert(b@.subrange(lo as int, lo as int) =~= Seq::<u8>::empty());
    }
    while i < hi
        invariant
            lo <= i <= hi <= b@.len(),
            hi - lo <= 32,
            all_hex(b@.subrange(lo as int, i as int)),
            acc as int == hex_val(b@.subrange(lo as int, i as int)),
            (acc as int) < pow16((i - lo) as nat),
        decreases hi - i,
    {
        let c = b[i];
        let d: u8 = if 48 <= c && c < 58 {
            c - 48
        } else if 97 <= c && c < 103 {
            c - 87
        } else {
            proof {
                assert(b@.subrange(lo as int, hi as int)[i - lo] == c);
            }
            return None;
        };
        proof {
            assert(is_hex_byte(c) && d as int == hex_byte_val(c));
            lemma_pow16_mono((i + 1 - lo) as nat, 32);
            lemma_pow16_32();
            assert(16 * (acc as int) + 15 < 16 * pow16((i - lo) as nat));
        }
        acc = 16 * acc + d as u128;
        i = i + 1;
        proof {
            assert(b@.subrange(lo as int, i as int).drop_last() =~= b@.subrange(
                lo as int,
                i - 1,
            ));
            assert(b@.subrange(lo as int, i as int).last() == c);
        }
    }
    proof {
        assert(b@.subrange(lo as int, i as int) =~= b@.subrange(lo as int, hi as int));
    }
    Some(acc)
}

/// `16^32` is exactly `2^128`, so 32 hex digits fill a `u128` with no slack.
pub proof fn lemma_pow16_32()
    ensures
        pow16(32) == 0x100000000000000000000000000000000,
{
    reveal_with_fuel(pow16, 33);
}

pub proof fn lemma_pow16_mono(a: nat, b: nat)
    requires
        a <= b,
    ensures
        pow16(a) <= pow16(b),
    decreases b,
{
    if a < b {
        lemma_pow16_pos(a);
        lemma_pow16_mono(a, (b - 1) as nat);
    }
}

} // verus!
