use hashmatch::digest::check_match;
use hashmatch::hex::{parse_hex, pow16_u64, write_zero_padded_hex};
use hashmatch::partition::worker_range;
use hashmatch::search::{find_matching_hash, search_range};
use sha2::{Digest, Sha256};

/// The trailing `w` bytes of `s` read as lowercase hex digits, compared
/// against the first `w` nibbles of the SHA-256 digest of `s`.
fn digest_prefix_matches(s: &str, w: usize) -> bool {
    let digest = Sha256::digest(s.as_bytes());
    let bytes = s.as_bytes();
    let hex = &bytes[bytes.len() - w..];
    for j in 0..w {
        let c = hex[j];
        let d = match c {
            b'0'..=b'9' => c - b'0',
            b'a'..=b'f' => 10 + (c - b'a'),
            _ => return false,
        };
        let nibble = if j % 2 == 0 {
            digest[j / 2] >> 4
        } else {
            digest[j / 2] & 0x0f
        };
        if nibble != d {
            return false;
        }
    }
    true
}

fn brute_force_has_match(msg: &str, w: u32) -> bool {
    let target = 16u64.pow(w);
    (0..target).any(|c| {
        let cand = format!("{} {:0width$x}", msg, c, width = w as usize);
        digest_prefix_matches(&cand, w as usize)
    })
}

#[test]
fn test_find_matching_hash() {
    assert_eq!(
        find_matching_hash("Hello, world!", 6),
        Some("Hello, world! 182a5e".to_string())
    );
}

#[test]
fn test_empty_message_zero_prefix() {
    assert_eq!(find_matching_hash("", 0), Some(" ".to_string()));
}

#[test]
fn test_returned_match_is_correct() {
    for msg in ["abc", "verus", "hash", "x"] {
        for w in [1u32, 2] {
            match find_matching_hash(msg, w) {
                Some(s) => {
                    assert!(s.starts_with(msg));
                    assert_eq!(s.len(), msg.len() + 1 + w as usize);
                    assert_eq!(s.as_bytes()[msg.len()], b' ');
                    assert!(digest_prefix_matches(&s, w as usize));
                }
                None => {
                    assert!(!brute_force_has_match(msg, w));
                }
            }
        }
    }
}

#[test]
fn test_idempotence() {
    let r1 = find_matching_hash("idem", 1);
    let r2 = find_matching_hash("idem", 1);
    assert_eq!(r1.is_some(), r2.is_some());
    for r in [&r1, &r2] {
        if let Some(s) = r {
            assert!(digest_prefix_matches(s, 1));
        }
    }
}

#[test]
fn test_partition_exact() {
    for (workers, target) in [(1u64, 100u64), (3, 100), (7, 16), (5, 3), (16, 16), (4, 0)] {
        let ranges: Vec<(u64, u64)> = (0..workers)
            .map(|i| worker_range(i, workers, target))
            .collect();
        assert_eq!(ranges[0].0, 0);
        assert_eq!(ranges[workers as usize - 1].1, target);
        for i in 0..workers as usize {
            let (start, end) = ranges[i];
            assert!(start <= end && end <= target);
            if i + 1 < workers as usize {
                assert_eq!(end, ranges[i + 1].0);
            }
        }
    }
}

#[test]
fn test_hex_round_trip() {
    for counter in 0..300u64 {
        let mut buf = vec![0u8; 4];
        write_zero_padded_hex(counter, &mut buf);
        assert_eq!(buf.len(), 4);
        for b in &buf {
            assert!(b.is_ascii_digit() || (b'a'..=b'f').contains(b));
        }
        assert_eq!(parse_hex(&buf), Some(counter));
    }
}

#[test]
fn test_hex_round_trip_extremes() {
    let mut empty: Vec<u8> = Vec::new();
    write_zero_padded_hex(7, &mut empty);
    assert_eq!(empty, Vec::<u8>::new());
    assert_eq!(parse_hex(&empty), Some(0));

    let mut wide = vec![0u8; 16];
    write_zero_padded_hex(u64::MAX, &mut wide);
    assert_eq!(wide, b"ffffffffffffffff".to_vec());
    assert_eq!(parse_hex(&wide), Some(u64::MAX));
}

#[test]
fn test_write_zero_padded_hex_values() {
    let mut buf = vec![0u8; 4];
    write_zero_padded_hex(255, &mut buf);
    assert_eq!(buf, b"00ff".to_vec());

    let mut buf6 = vec![0u8; 6];
    write_zero_padded_hex(0x182a5e, &mut buf6);
    assert_eq!(buf6, b"182a5e".to_vec());
}

#[test]
fn test_parse_hex_rejects_non_hex() {
    assert_eq!(parse_hex(&b"0g".to_vec()), None);
    assert_eq!(parse_hex(&b"0F".to_vec()), None);
    assert_eq!(parse_hex(&b" 1".to_vec()), None);
}

#[test]
fn test_pow16_u64_values() {
    assert_eq!(pow16_u64(0), 1);
    assert_eq!(pow16_u64(1), 16);
    assert_eq!(pow16_u64(3), 4096);
    assert_eq!(pow16_u64(15), 0x1000000000000000);
}

#[test]
fn test_check_match_against_digest() {
    let digest = Sha256::digest("Hello, world! 182a5e".as_bytes()).to_vec();
    assert!(check_match(&b"182a5e".to_vec(), &digest, 6));
    assert!(!check_match(&b"182a5f".to_vec(), &digest, 6));
    assert!(!check_match(&b"182A5e".to_vec(), &digest, 6));
    assert!(check_match(&b"182a5e".to_vec(), &digest, 0));
}

#[test]
fn test_truncated_range_absence() {
    assert!(!digest_prefix_matches("Hello, world! 000000", 6));
    assert_eq!(search_range("Hello, world!", 6, 0, 1), None);
}

#[test]
fn test_range_containing_match() {
    assert_eq!(
        search_range("Hello, world!", 6, 0x182a5e, 0x182a5f),
        Some("Hello, world! 182a5e".to_string())
    );
}
