//! Candidate construction: `message`, one space, then the rendered counter.

use vstd::prelude::*;
use vstd::utf8::{encode_scalar, encode_utf8, is_ascii_chars, is_ascii_chars_encode_utf8};
use crate::hex::{is_hex_char, lemma_render_hex_chars, spec_render_hex};

verus! {

/// The byte sequence that is hashed: the message bytes, a space, and the
/// counter rendered as `w` lowercase hex digits.
pub open spec fn candidate_bytes(msg: Seq<u8>, n: nat, w: nat) -> Seq<u8> {
    msg + seq![32u8] + spec_render_hex(n, w)
}

/// The character sequence of the candidate string that is returned to the
/// caller: the message, a space, and the counter's hex digits.
pub open spec fn candidate_chars(msg: Seq<char>, n: nat, w: nat) -> Seq<char> {
    msg + seq![' '] + spec_render_hex(n, w).map_values(|b: u8| b as char)
}

pub proof fn lemma_encode_utf8_concat(a: Seq<char>, b: Seq<char>)
    ensures
        encode_utf8(a + b) == encode_utf8(a) + encode_utf8(b),
    decreases a.len(),
{
    if a.len() == 0 {
        assert(a + b =~= b);
        assert(encode_utf8(a) + encode_utf8(b) =~= encode_utf8(b));
    } else {
        assert((a + b).drop_first() =~= a.drop_first() + b);
        lemma_encode_utf8_concat(a.drop_first(), b);
        assert(encode_scalar((a + b)[0] as u32) + (encode_utf8(a.drop_first()) + encode_utf8(b))
            =~= (encode_scalar(a[0] as u32) + encode_utf8(a.drop_first())) + encode_utf8(b));
    }
}

/// The UTF-8 bytes of the candidate string are exactly the bytes that were
/// hashed: the message's bytes, a space, and the rendered counter.
pub proof fn lemma_candidate_encoding(msg: Seq<char>, n: nat, w: nat)
    ensures
        encode_utf8(candidate_chars(msg, n, w)) == candidate_bytes(encode_utf8(msg), n, w),
{
    let hex = spec_render_hex(n, w);
    let hexc = hex.map_values(|b: u8| b as char);
    lemma_render_hex_chars(n, w);
    lemma_encode_utf8_concat(msg + seq![' '], hexc);
    lemma_encode_utf8_concat(msg, seq![' ']);
    assert(is_ascii_chars(seq![' ']));
    is_ascii_chars_encode_utf8(seq![' ']);
    assert(encode_utf8(seq![' ']) =~= seq![32u8]);
    assert forall|i: int| 0 <= i < hexc.len() implies '\0' <= #[trigger] hexc[i] <= '\u{7f}' by {
        assert(is_hex_char(hex[i]));
        assert(hexc[i] == hex[i] as char);
    }
    assert(is_ascii_chars(hexc));
    is_ascii_chars_encode_utf8(hexc);
    assert(encode_utf8(hexc) =~= hex);
    assert(candidate_chars(msg, n, w) =~= (msg + seq![' ']) + hexc);
    assert(encode_utf8(candidate_chars(msg, n, w)) =~= (encode_utf8(msg) + seq![32u8]) + hex);
    assert(candidate_bytes(encode_utf8(msg), n, w) =~= (encode_utf8(msg) + seq![32u8]) + hex);
}

/// Relies on String::push: it appends the given character to the end of the
/// string.
#[verifier::external_body]
fn push_char(s: &mut String, c: char)
    ensures
        final(s)@ == old(s)@.push(c),
{
    s.push(c);
}

/// Builds the candidate string for a rendered counter.
pub fn make_candidate_string(message: &str, hex: &Vec<u8>) -> (r: String)
    ensures
        r@ == message@ + seq![' '] + hex@.map_values(|b: u8| b as char),
{
    let mut r: String = message.to_owned();
    push_char(&mut r, ' ');
    proof {
        assert(r@ =~= message@ + seq![' '] + hex@.subrange(0, 0).map_values(|b: u8| b as char));
    }
    let mut i: usize = 0;
    while i < hex.len()
        invariant
            i <= hex.len(),
            r@ == message@ + seq![' '] + hex@.subrange(0, i as int).map_values(
                |b: u8| b as char,
            ),
        decreases hex.len() - i,
    {
        let b = hex[i];
        push_char(&mut r, b as char);
        proof {
            assert(hex@.subrange(0, i + 1).map_values(|b: u8| b as char) =~= hex@.subrange(
                0,
                i as int,
            ).map_values(|b: u8| b as char).push(hex@[i as int] as char));
            assert(r@ =~= message@ + seq![' '] + hex@.subrange(0, i + 1).map_values(
                |b: u8| b as char,
            ));
        }
        i = i + 1;
    }
    proof {
        assert(hex@.subrange(0, hex.len() as int) =~= hex@);
    }
    r
}

} // verus!
