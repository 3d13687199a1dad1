//! Validation of header bytes crossing the boundary between the outbound
//! HTTP client and the inbound HTTP server. The two sides carry headers in
//! independent representations, so every name/value pair coming back from the
//! backend is re-validated before it is copied verbatim into the client-facing
//! response; a malformed pair is surfaced as an upstream error, never dropped
//! silently and never allowed to crash the handler.

use vstd::prelude::*;

verus! {

/// A header-name byte: the token characters of HTTP field names
/// (letters, digits, and `! # $ % & ' * + - . ^ _ ` | ~`).
pub open spec fn is_token_byte(b: u8) -> bool {
    ||| 97 <= b <= 122
    ||| 65 <= b <= 90
    ||| 48 <= b <= 57
    ||| b == 33
    ||| 35 <= b <= 39
    ||| b == 42
    ||| b == 43
    ||| b == 45
    ||| b == 46
    ||| 94 <= b <= 96
    ||| b == 124
    ||| b == 126
}

/// A header-value byte: horizontal tab, or any byte from space upward except
/// DEL (so printable ASCII and opaque high bytes are allowed, controls are
/// not).
pub open spec fn is_value_byte(b: u8) -> bool {
    b == 9 || (32 <= b && b != 127)
}

/// A valid header name: non-empty, token bytes only.
pub open spec fn valid_header_name(s: Seq<u8>) -> bool {
    s.len() > 0 && forall|i: int| 0 <= i < s.len() ==> is_token_byte(s[i])
}

/// A valid header value: value bytes only.
pub open spec fn valid_header_value(s: Seq<u8>) -> bool {
    forall|i: int| 0 <= i < s.len() ==> is_value_byte(s[i])
}

/// Both parts of one name/value pair are valid.
pub open spec fn header_pair_valid(h: (Vec<u8>, Vec<u8>)) -> bool {
    valid_header_name(h.0@) && valid_header_value(h.1@)
}

/// Every name/value pair in the set is valid.
pub open spec fn all_headers_valid(hs: Seq<(Vec<u8>, Vec<u8>)>) -> bool {
    forall|i: int| 0 <= i < hs.len() ==> header_pair_valid(#[trigger] hs[i])
}

/// Checks whether `b` is a token byte.
fn is_token_byte_exec(b: u8) -> (r: bool)
    ensures
        r == is_token_byte(b),
{
    (97 <= b && b <= 122) || (65 <= b && b <= 90) || (48 <= b && b <= 57) || b == 33 || (35 <= b
        && b <= 39) || b == 42 || b == 43 || b == 45 || b == 46 || (94 <= b && b <= 96) || b == 124
        || b == 126
}

/// Checks that a header name is non-empty and made of token bytes only.
pub fn check_header_name(s: &[u8]) -> (r: bool)
    ensures
        r == valid_header_name(s@),
{
    if s.len() == 0 {
        return false;
    }
    let mut i: usize = 0;
    while i < s.len()
        invariant
            i <= s@.len(),
            forall|j: int| 0 <= j < i ==> is_token_byte(s@[j]),
        decreases s@.len() - i,
    {
        if !is_token_byte_exec(s[i]) {
            return false;
        }
        i = i + 1;
    }
    true
}

/// Checks that a header value contains value bytes only.
pub fn check_header_value(s: &[u8]) -> (r: bool)
    ensures
        r == valid_header_value(s@),
{
    let mut i: usize = 0;
    while i < s.len()
        invariant
            i <= s@.len(),
            forall|j: int| 0 <= j < i ==> is_value_byte(s@[j]),
        decreases s@.len() - i,
    {
        let b = s[i];
        if !(b == 9 || (32 <= b && b != 127)) {
            return false;
        }
        i = i + 1;
    }
    true
}

/// Checks every name/value pair of a header set.
pub fn check_headers(hs: &Vec<(Vec<u8>, Vec<u8>)>) -> (r: bool)
    ensures
        r == all_headers_valid(hs@),
{
    let mut i: usize = 0;
    while i < hs.len()
        invariant
            i <= hs@.len(),
            forall|j: int| 0 <= j < i ==> header_pair_valid(#[trigger] hs@[j]),
        decreases hs@.len() - i,
    {
        let ok_name = check_header_name(hs[i].0.as_slice());
        let ok_value = check_header_value(hs[i].1.as_slice());
        if !ok_name || !ok_value {
            return false;
        }
        proof {
            assert(header_pair_valid(hs@[i as int]));
        }
        i = i + 1;
    }
    true
}

} // verus!
