//! A proof-of-work style search: find a counter whose zero-padded lowercase
//! hexadecimal rendering, appended to a message after a single space, yields a
//! string whose SHA-256 digest begins with exactly those hex digits.

pub mod candidate;
pub mod digest;
pub mod hex;
pub mod partition;
pub mod search;
