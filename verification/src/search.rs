//! The brute-force search over the counter space.

use vstd::prelude::*;
use vstd::slice::slice_to_vec;
use vstd::utf8::encode_utf8;
use crate::candidate::{candidate_bytes, candidate_chars, lemma_candidate_encoding,
    make_candidate_string};
use crate::digest::{check_match, check_match_spec, sha256_concat, sha256_of};
use crate::hex::{pow16, pow16_u64, spec_render_hex, write_zero_padded_hex};

verus! {

/// Counter `n`, rendered to `w` hex digits and appended to the message bytes
/// after a space, hashes to a digest whose first `w` nibbles spell those same
/// digits.
pub open spec fn is_match(msg: Seq<u8>, n: nat, w: nat) -> bool {
    check_match_spec(spec_render_hex(n, w), sha256_of(candidate_bytes(msg, n, w)), w)
}

/// What a search over counters in `[lo, hi)` may return: some candidate
/// string built from a matching counter in the range, or absence exactly when
/// no counter in the range matches.
pub open spec fn search_outcome_ok(
    msg: Seq<char>,
    w: nat,
    lo: nat,
    hi: nat,
    r: Option<String>,
) -> bool {
    match r {
        Some(s) => exists|n: nat|
            lo <= n < hi && #[trigger] is_match(encode_utf8(msg), n, w) && s@ == candidate_chars(
                msg,
                n,
                w,
            ),
        None => forall|n: nat|
            lo <= n < hi ==> !(#[trigger] is_match(encode_utf8(msg), n, w)),
    }
}

/// Scans counters in `[start, end)` in order and returns the candidate string
/// of the first matching one, or absence when none in the range matches.
pub fn search_range(message: &str, prefix_length: u32, start: u64, end: u64) -> (r: Option<
    String,
>)
    requires
        prefix_length <= 15,
        start <= end,
        end as nat <= pow16(prefix_length as nat),
    ensures
        search_outcome_ok(message@, prefix_length as nat, start as nat, end as nat, r),
{
    let w = prefix_length as usize;
    let message_bytes = message.as_bytes();
    let mut msg_part: Vec<u8> = slice_to_vec(message_bytes);
    msg_part.push(32u8);
    proof {
        assert(msg_part@ =~= encode_utf8(message@) + seq![32u8]);
    }
    let mut counter_buf: Vec<u8> = Vec::new();
    let mut k: usize = 0;
    while k < w
        invariant
            k <= w,
            counter_buf.len() == k,
        decreases w - k,
    {
        counter_buf.push(48u8);
        k = k + 1;
    }
    let mut counter: u64 = start;
    while counter < end
        invariant
            start <= counter <= end,
            end as nat <= pow16(prefix_length as nat),
            prefix_length <= 15,
            w == prefix_length as usize,
            counter_buf.len() == w,
            msg_part@ == encode_utf8(message@) + seq![32u8],
            forall|n: nat|
                start <= n < counter ==> !(#[trigger] is_match(
                    encode_utf8(message@),
                    n,
                    prefix_length as nat,
                )),
        decreases end - counter,
    {
        write_zero_padded_hex(counter, &mut counter_buf);
        let hash = sha256_concat(&msg_part, &counter_buf);
        proof {
            assert(msg_part@ + counter_buf@ =~= candidate_bytes(
                encode_utf8(message@),
                counter as nat,
                prefix_length as nat,
            ));
        }
        if check_match(&counter_buf, &hash, w) {
            let s = make_candidate_string(message, &counter_buf);
            proof {
                assert(is_match(encode_utf8(message@), counter as nat, prefix_length as nat));
            }
            return Some(s);
        }
        counter = counter + 1;
    }
    None
}

/// Any matching candidate string is its own witness: the SHA-256 digest of
/// the string's UTF-8 bytes begins with the string's trailing `w` hex digits.
pub proof fn lemma_match_string_digest(msg: Seq<char>, n: nat, w: nat)
    requires
        is_match(encode_utf8(msg), n, w),
    ensures
        check_match_spec(
            spec_render_hex(n, w),
            sha256_of(encode_utf8(candidate_chars(msg, n, w))),
            w,
        ),
{
    lemma_candidate_encoding(msg, n, w);
}

/// Two outcomes of searching the same range for the same message and width
/// agree on whether a match exists: a search cannot report absence while
/// another over identical inputs finds a match.
pub proof fn lemma_search_consistent(
    msg: Seq<char>,
    w: nat,
    lo: nat,
    hi: nat,
    r1: Option<String>,
    r2: Option<String>,
)
    requires
        search_outcome_ok(msg, w, lo, hi, r1),
        search_outcome_ok(msg, w, lo, hi, r2),
    ensures
        r1 is Some <==> r2 is Some,
{
    if r1 is Some && !(r2 is Some) {
        let n = choose|n: nat|
            lo <= n < hi && #[trigger] is_match(encode_utf8(msg), n, w) && r1->Some_0@
                == candidate_chars(msg, n, w);
        assert(!is_match(encode_utf8(msg), n, w));
    }
    if r2 is Some && !(r1 is Some) {
        let n = choose|n: nat|
            lo <= n < hi && #[trigger] is_match(encode_utf8(msg), n, w) && r2->Some_0@
                == candidate_chars(msg, n, w);
        assert(!is_match(encode_utf8(msg), n, w));
    }
}

/// Searches the whole counter space `[0, 16^prefix_length)`.
pub fn find_matching_hash(message: &str, prefix_length: u32) -> (r: Option<String>)
    requires
        prefix_length <= 15,
    ensures
        search_outcome_ok(message@, prefix_length as nat, 0, pow16(prefix_length as nat), r),
{
    let target = pow16_u64(prefix_length);
    search_range(message, prefix_length, 0, target)
}

} // verus!
