//! Reading HTTP/1.1 header lines, shared by the RPC client and server.
//!
//! A header line is matched the way both ends do it: the line is trimmed,
//! and its name is compared without regard to ASCII case. For the two names
//! read here this agrees with comparing the Unicode lower case of the line:
//! the only characters outside ASCII whose lower case holds an ASCII letter
//! are the Kelvin sign, which lowers to `k`, absent from both names, and `İ`,
//! which lowers to `i` followed by a combining dot, which no name continues
//! with; so a match is all ASCII, and the value starts right after the
//! name's bytes.

use vstd::prelude::*;
use crate::number::{parse_unsigned, parse_unsigned_range};
use crate::text::{range_starts_with_ignore_ascii_case, starts_with_ignore_ascii_case};

verus! {

/// The number that a `Content-Length` value gives; `0` when the text is not
/// a number that fits in `usize`.
pub open spec fn length_value(v: Seq<char>) -> nat {
    match parse_unsigned(v, usize::MAX as nat) {
        Ok(n) => n,
        Err(_) => 0,
    }
}

/// Whether a trimmed header line is a `Content-Length` header.
pub open spec fn is_content_length_line(t: Seq<char>) -> bool {
    starts_with_ignore_ascii_case(t, "content-length: "@)
}

/// The value that a trimmed `Content-Length` line gives.
pub open spec fn content_length_of_line(t: Seq<char>) -> nat {
    length_value(t.skip("content-length: "@.len() as int))
}

/// Whether a trimmed header line is an `Authorization` header.
pub open spec fn is_authorization_line(t: Seq<char>) -> bool {
    starts_with_ignore_ascii_case(t, "authorization: "@)
}

/// The credentials that a trimmed `Authorization` line carries.
pub open spec fn authorization_of_line(t: Seq<char>) -> Seq<char> {
    t.skip("authorization: "@.len() as int)
}

/// Whether the trimmed line `s[lo..hi]` is a `Content-Length` header.
pub fn content_length_line(s: &Vec<char>, lo: usize, hi: usize) -> (r: bool)
    requires
        lo <= hi <= s@.len(),
    ensures
        r == is_content_length_line(s@.subrange(lo as int, hi as int)),
{
    range_starts_with_ignore_ascii_case(s, lo, hi, "content-length: ")
}

/// The value of the `Content-Length` line `s[lo..hi]`.
pub fn content_length_value(s: &Vec<char>, lo: usize, hi: usize) -> (r: usize)
    requires
        lo <= hi <= s@.len(),
        is_content_length_line(s@.subrange(lo as int, hi as int)),
    ensures
        r == content_length_of_line(s@.subrange(lo as int, hi as int)),
{
    let n = "content-length: ".unicode_len();
    let ghost t = s@.subrange(lo as int, hi as int);
    assert(t.skip(n as int) =~= s@.subrange(lo + n, hi as int));
    let max = usize::MAX as u64;
    assert(max as nat == usize::MAX as nat);
    match parse_unsigned_range(s, lo + n, hi, max) {
        Ok(v) => {
            assert(v <= usize::MAX);
            v as usize
        },
        Err(_) => 0,
    }
}

/// Whether the trimmed line `s[lo..hi]` is an `Authorization` header.
pub fn authorization_line(s: &Vec<char>, lo: usize, hi: usize) -> (r: bool)
    requires
        lo <= hi <= s@.len(),
    ensures
        r == is_authorization_line(s@.subrange(lo as int, hi as int)),
{
    range_starts_with_ignore_ascii_case(s, lo, hi, "authorization: ")
}

} // verus!
