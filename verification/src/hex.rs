//! Fixed-width lowercase hexadecimal rendering and parsing of counters.

use vstd::prelude::*;
use vstd::arithmetic::div_mod::{lemma_div_basics, lemma_div_denominator,
    lemma_fundamental_div_mod, lemma_multiply_divide_lt};

verus! {

/// 16^w, the number of counters that fit in w hexadecimal digits.
pub open spec fn pow16(w: nat) -> nat
    decreases w,
{
    if w == 0 {
        1
    } else {
        16 * pow16((w - 1) as nat)
    }
}

/// The byte of the lowercase hexadecimal digit with value `d`.
pub open spec fn hex_char(d: nat) -> u8 {
    if d < 10 {
        (48 + d) as u8
    } else {
        (87 + d) as u8
    }
}

/// `b` is the byte of a lowercase hexadecimal digit (`0-9` or `a-f`).
pub open spec fn is_hex_char(b: u8) -> bool {
    (48 <= b && b <= 57) || (97 <= b && b <= 102)
}

/// Numeric value of a lowercase hexadecimal digit byte.
pub open spec fn hex_val(b: u8) -> nat {
    if 48 <= b && b <= 57 {
        (b - 48) as nat
    } else {
        (b - 87) as nat
    }
}

/// The `w` lowercase hex digits of `n`, most significant first, zero-padded.
pub open spec fn spec_render_hex(n: nat, w: nat) -> Seq<u8> {
    Seq::new(w, |j: int| hex_char((n / pow16((w - 1 - j) as nat)) % 16))
}

/// Every byte of `cs` is a lowercase hexadecimal digit.
pub open spec fn all_hex(cs: Seq<u8>) -> bool {
    forall|j: int| 0 <= j < cs.len() ==> is_hex_char(#[trigger] cs[j])
}

/// The numeric value of a big-endian sequence of hexadecimal digit bytes.
pub open spec fn hex_value(cs: Seq<u8>) -> nat
    decreases cs.len(),
{
    if cs.len() == 0 {
        0
    } else {
        16 * hex_value(cs.drop_last()) + hex_val(cs.last())
    }
}

pub proof fn lemma_pow16_pos(w: nat)
    ensures
        pow16(w) >= 1,
    decreases w,
{
    if w > 0 {
        lemma_pow16_pos((w - 1) as nat);
    }
}

pub proof fn lemma_pow16_le(a: nat, b: nat)
    requires
        a <= b,
    ensures
        pow16(a) <= pow16(b),
    decreases b,
{
    if a < b {
        lemma_pow16_le(a, (b - 1) as nat);
        lemma_pow16_pos((b - 1) as nat);
    }
}

pub proof fn lemma_pow16_values()
    ensures
        pow16(15) == 0x1000000000000000,
        pow16(16) == 0x10000000000000000,
{
    reveal_with_fuel(pow16, 17);
}

/// Writes the zero-padded lowercase hexadecimal rendering of `n` over the
/// whole buffer, most significant digit first.
pub fn write_zero_padded_hex(n: u64, buffer: &mut Vec<u8>)
    requires
        old(buffer).len() <= 16,
    ensures
        final(buffer).len() == old(buffer).len(),
        final(buffer)@ == spec_render_hex(n as nat, old(buffer).len() as nat),
{
    let len = buffer.len();
    let mut m: u64 = n;
    let mut i: usize = len;
    proof {
        lemma_div_basics(n as int);
    }
    while i > 0
        invariant
            i <= len,
            len <= 16,
            buffer.len() == len,
            m as nat == n as nat / pow16((len - i) as nat),
            forall|j: int|
                i <= j < len ==> buffer@[j] == hex_char(
                    (n as nat / pow16((len - 1 - j) as nat)) % 16,
                ),
        decreases i,
    {
        i = i - 1;
        let d: u8 = (m % 16) as u8;
        let ch: u8 = if d < 10 {
            48 + d
        } else {
            87 + d
        };
        buffer.set(i, ch);
        proof {
            let k = (len - 1 - i) as nat;
            lemma_pow16_pos(k);
            lemma_div_denominator(n as int, pow16(k) as int, 16);
            assert(pow16((k + 1) as nat) == 16 * pow16(k));
        }
        m = m / 16;
    }
    proof {
        assert(buffer@ =~= spec_render_hex(n as nat, len as nat));
    }
}

/// 16^w as a machine word; defined for widths whose space fits in a u64.
pub fn pow16_u64(w: u32) -> (r: u64)
    requires
        w <= 15,
    ensures
        r as nat == pow16(w as nat),
{
    let mut r: u64 = 1;
    let mut i: u32 = 0;
    while i < w
        invariant
            i <= w,
            w <= 15,
            r as nat == pow16(i as nat),
        decreases w - i,
    {
        proof {
            lemma_pow16_le((i + 1) as nat, 15);
            lemma_pow16_values();
        }
        r = r * 16;
        i = i + 1;
    }
    r
}

/// A rendering is always exactly `w` bytes of lowercase hexadecimal digits.
pub proof fn lemma_render_hex_chars(n: nat, w: nat)
    ensures
        spec_render_hex(n, w).len() == w,
        all_hex(spec_render_hex(n, w)),
{
    let r = spec_render_hex(n, w);
    assert forall|j: int| 0 <= j < r.len() implies is_hex_char(#[trigger] r[j]) by {
        lemma_pow16_pos((w - 1 - j) as nat);
    }
}

pub proof fn lemma_hex_value_bound(cs: Seq<u8>)
    requires
        all_hex(cs),
    ensures
        hex_value(cs) < pow16(cs.len()),
    decreases cs.len(),
{
    if cs.len() > 0 {
        assert(is_hex_char(cs[cs.len() - 1]));
        assert(all_hex(cs.drop_last()));
        lemma_hex_value_bound(cs.drop_last());
    }
}

/// Parses a big-endian sequence of lowercase hexadecimal digit bytes; absent
/// exactly when some byte is not such a digit.
pub fn parse_hex(cs: &Vec<u8>) -> (r: Option<u64>)
    requires
        cs.len() <= 16,
    ensures
        match r {
            Some(v) => all_hex(cs@) && v as nat == hex_value(cs@),
            None => !all_hex(cs@),
        },
{
    let mut acc: u64 = 0;
    let mut i: usize = 0;
    while i < cs.len()
        invariant
            i <= cs.len(),
            cs.len() <= 16,
            acc as nat == hex_value(cs@.subrange(0, i as int)),
            forall|j: int| 0 <= j < i ==> is_hex_char(#[trigger] cs@[j]),
        decreases cs.len() - i,
    {
        let c = cs[i];
        let d: u8 = if 48 <= c && c <= 57 {
            c - 48
        } else if 97 <= c && c <= 102 {
            c - 87
        } else {
            return None;
        };
        proof {
            assert(all_hex(cs@.subrange(0, i as int)));
            lemma_hex_value_bound(cs@.subrange(0, i as int));
            lemma_pow16_le((i + 1) as nat, 16);
            lemma_pow16_values();
            assert(cs@.subrange(0, i + 1).drop_last() =~= cs@.subrange(0, i as int));
            assert(cs@.subrange(0, i + 1).last() == cs@[i as int]);
        }
        acc = acc * 16 + (d as u64);
        i = i + 1;
    }
    proof {
        assert(cs@.subrange(0, cs.len() as int) =~= cs@);
    }
    Some(acc)
}

/// Rendering a counter below 16^w to width w and parsing it back returns the
/// counter, the rendering is exactly w bytes long, and each byte is a
/// lowercase hexadecimal digit.
pub proof fn lemma_hex_round_trip(n: nat, w: nat)
    requires
        n < pow16(w),
    ensures
        spec_render_hex(n, w).len() == w,
        all_hex(spec_render_hex(n, w)),
        hex_value(spec_render_hex(n, w)) == n,
    decreases w,
{
    let r = spec_render_hex(n, w);
    lemma_render_hex_chars(n, w);
    if w == 0 {
        assert(r =~= Seq::<u8>::empty());
    } else {
        let q = n / 16;
        lemma_pow16_pos((w - 1) as nat);
        lemma_multiply_divide_lt(n as int, 16, pow16((w - 1) as nat) as int);
        lemma_hex_round_trip(q, (w - 1) as nat);
        let r1 = spec_render_hex(q, (w - 1) as nat);
        assert forall|j: int| 0 <= j < w - 1 implies r.drop_last()[j] == r1[j] by {
            let k = (w - 2 - j) as nat;
            lemma_pow16_pos(k);
            lemma_div_denominator(n as int, 16, pow16(k) as int);
            assert(pow16((k + 1) as nat) == 16 * pow16(k));
        }
        assert(r.drop_last() =~= r1);
        assert(r.last() == hex_char((n / pow16(0)) % 16));
        lemma_div_basics(n as int);
        assert(n / pow16(0) == n);
        lemma_fundamental_div_mod(n as int, 16);
        assert(hex_value(r) == 16 * q + (n % 16));
    }
}

} // verus!
