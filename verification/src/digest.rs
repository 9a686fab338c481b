//! SHA-256 digests and the nibble-level prefix match test.

use vstd::prelude::*;
use sha2::Digest;
use crate::hex::{hex_val, is_hex_char};

verus! {

/// The 32-byte SHA-256 digest of a byte sequence. The digest is named here,
/// not defined: it stands for exactly what sha2 computes.
pub uninterp spec fn sha256_of(bytes: Seq<u8>) -> Seq<u8>;

/// Relies on sha2::Sha256 through the Digest trait: `update` absorbs bytes in
/// order, so updating with `a` then `b` hashes their concatenation, and
/// `finalize` returns the 32-byte digest, a function of the absorbed bytes
/// alone.
#[verifier::external_body]
pub(crate) fn sha256_concat(a: &Vec<u8>, b: &Vec<u8>) -> (r: Vec<u8>)
    ensures
        r@ == sha256_of(a@ + b@),
        r@.len() == 32,
{
    let mut hasher = sha2::Sha256::new();
    hasher.update(a);
    hasher.update(b);
    hasher.finalize().to_vec()
}

/// Nibble `j` of a digest, high nibble of each byte first.
pub open spec fn digest_nibble(h: Seq<u8>, j: int) -> u8 {
    if j % 2 == 0 {
        h[j / 2] >> 4u8
    } else {
        h[j / 2] & 0x0fu8
    }
}

/// Digit `j` of the counter rendering agrees with nibble `j` of the digest;
/// false when the byte is not a lowercase hex digit or the digest has no
/// nibble `j`.
pub open spec fn digit_matches(cs: Seq<u8>, h: Seq<u8>, j: int) -> bool {
    &&& is_hex_char(cs[j])
    &&& j / 2 < 32
    &&& j / 2 < h.len()
    &&& hex_val(cs[j]) == digest_nibble(h, j) as nat
}

/// The first `w` nibbles of the digest spell exactly the `w` hex digit bytes
/// of `cs`.
pub open spec fn check_match_spec(cs: Seq<u8>, h: Seq<u8>, w: nat) -> bool {
    forall|j: int| 0 <= j < w ==> #[trigger] digit_matches(cs, h, j)
}

/// Tests whether the first `prefix_len` hex digits of `counter_part` equal
/// the first `prefix_len` nibbles of `hash`.
pub fn check_match(counter_part: &Vec<u8>, hash: &Vec<u8>, prefix_len: usize) -> (r: bool)
    requires
        prefix_len <= counter_part.len(),
    ensures
        r == check_match_spec(counter_part@, hash@, prefix_len as nat),
{
    let mut j: usize = 0;
    while j < prefix_len
        invariant
            j <= prefix_len,
            prefix_len <= counter_part.len(),
            forall|k: int| 0 <= k < j ==> #[trigger] digit_matches(counter_part@, hash@, k),
        decreases prefix_len - j,
    {
        let c = counter_part[j];
        let digit: u8 = if 48 <= c && c <= 57 {
            c - 48
        } else if 97 <= c && c <= 102 {
            c - 87
        } else {
            proof {
                assert(!digit_matches(counter_part@, hash@, j as int));
            }
            return false;
        };
        let byte_idx = j / 2;
        if byte_idx >= 32 || byte_idx >= hash.len() {
            proof {
                assert(!digit_matches(counter_part@, hash@, j as int));
            }
            return false;
        }
        let nibble: u8 = if j % 2 == 0 {
            hash[byte_idx] >> 4u8
        } else {
            hash[byte_idx] & 0x0fu8
        };
        if nibble != digit {
            proof {
                assert(!digit_matches(counter_part@, hash@, j as int));
            }
            return false;
        }
        proof {
            assert(digit_matches(counter_part@, hash@, j as int));
        }
        j = j + 1;
    }
    true
}

} // verus!
