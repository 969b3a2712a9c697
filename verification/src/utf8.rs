//! UTF-8 validation of text payloads.
//!
//! A text event's payload is checked against the UTF-8 encoding rules
//! before it is turned into an owned string; a payload that fails the
//! check yields a recoverable decode error instead of a text event.

use vstd::prelude::*;

verus! {

/// A continuation byte: the second, third or fourth byte of a multi-byte
/// encoding.
pub open spec fn is_utf8_cont(b: u8) -> bool {
    0x80 <= b && b <= 0xBF
}

/// Whether `s` is a well-formed UTF-8 byte sequence: a concatenation of
/// one- to four-byte encodings with the shortest form required, no
/// surrogate code points, and nothing above the last code point.
pub open spec fn is_valid_utf8(s: Seq<u8>) -> bool
    decreases s.len(),
{
    if s.len() == 0 {
        true
    } else {
        let b0 = s[0];
        if b0 <= 0x7F {
            is_valid_utf8(s.skip(1))
        } else if 0xC2 <= b0 && b0 <= 0xDF {
            if s.len() >= 2 && is_utf8_cont(s[1]) {
                is_valid_utf8(s.skip(2))
            } else {
                false
            }
        } else if b0 == 0xE0 {
            if s.len() >= 3 && 0xA0 <= s[1] && s[1] <= 0xBF && is_utf8_cont(s[2]) {
                is_valid_utf8(s.skip(3))
            } else {
                false
            }
        } else if 0xE1 <= b0 && b0 <= 0xEC || b0 == 0xEE || b0 == 0xEF {
            if s.len() >= 3 && is_utf8_cont(s[1]) && is_utf8_cont(s[2]) {
                is_valid_utf8(s.skip(3))
            } else {
                false
            }
        } else if b0 == 0xED {
            if s.len() >= 3 && 0x80 <= s[1] && s[1] <= 0x9F && is_utf8_cont(s[2]) {
                is_valid_utf8(s.skip(3))
            } else {
                false
            }
        } else if b0 == 0xF0 {
            if s.len() >= 4 && 0x90 <= s[1] && s[1] <= 0xBF && is_utf8_cont(s[2]) && is_utf8_cont(
                s[3],
            ) {
                is_valid_utf8(s.skip(4))
            } else {
                false
            }
        } else if 0xF1 <= b0 && b0 <= 0xF3 {
            if s.len() >= 4 && is_utf8_cont(s[1]) && is_utf8_cont(s[2]) && is_utf8_cont(s[3]) {
                is_valid_utf8(s.skip(4))
            } else {
                false
            }
        } else if b0 == 0xF4 {
            if s.len() >= 4 && 0x80 <= s[1] && s[1] <= 0x8F && is_utf8_cont(s[2]) && is_utf8_cont(
                s[3],
            ) {
                is_valid_utf8(s.skip(4))
            } else {
                false
            }
        } else {
            false
        }
    }
}

proof fn lemma_skip_of_skip(s: Seq<u8>, i: int, c: int)
    requires
        0 <= i,
        0 <= c,
        i + c <= s.len(),
    ensures
        s.skip(i).skip(c) == s.skip(i + c),
{
    assert(s.skip(i).skip(c) =~= s.skip(i + c));
}

/// Decide whether `bytes` is well-formed UTF-8.
pub fn validate_utf8(bytes: &Vec<u8>) -> (r: bool)
    ensures
        r == is_valid_utf8(bytes@),
{
    let n = bytes.len();
    let mut i: usize = 0;
    proof {
        assert(bytes@.skip(0) =~= bytes@);
    }
    while i < n
        invariant
            i <= n,
            n == bytes@.len(),
            is_valid_utf8(bytes@) == is_valid_utf8(bytes@.skip(i as int)),
        decreases n - i,
    {
        let ghost rest = bytes@.skip(i as int);
        let b0 = bytes[i];
        assert(rest[0] == b0);
        let width: usize = if b0 <= 0x7F {
            1
        } else if 0xC2 <= b0 && b0 <= 0xDF {
            if !(n - i > 1 && is_cont(bytes[i + 1])) {
                return false;
            }
            2
        } else if b0 == 0xE0 {
            if !(n - i > 2 && 0xA0 <= bytes[i + 1] && bytes[i + 1] <= 0xBF && is_cont(
                bytes[i + 2],
            )) {
                return false;
            }
            3
        } else if 0xE1 <= b0 && b0 <= 0xEC || b0 == 0xEE || b0 == 0xEF {
            if !(n - i > 2 && is_cont(bytes[i + 1]) && is_cont(bytes[i + 2])) {
                return false;
            }
            3
        } else if b0 == 0xED {
            if !(n - i > 2 && 0x80 <= bytes[i + 1] && bytes[i + 1] <= 0x9F && is_cont(
                bytes[i + 2],
            )) {
                return false;
            }
            3
        } else if b0 == 0xF0 {
            if !(n - i > 3 && 0x90 <= bytes[i + 1] && bytes[i + 1] <= 0xBF && is_cont(
                bytes[i + 2],
            ) && is_cont(bytes[i + 3])) {
                return false;
            }
            4
        } else if 0xF1 <= b0 && b0 <= 0xF3 {
            if !(n - i > 3 && is_cont(bytes[i + 1]) && is_cont(bytes[i + 2]) && is_cont(
                bytes[i + 3],
            )) {
                return false;
            }
            4
        } else if b0 == 0xF4 {
            if !(n - i > 3 && 0x80 <= bytes[i + 1] && bytes[i + 1] <= 0x8F && is_cont(
                bytes[i + 2],
            ) && is_cont(bytes[i + 3])) {
                return false;
            }
            4
        } else {
            return false;
        };
        proof {
            assert(is_valid_utf8(rest) == is_valid_utf8(rest.skip(width as int)));
            lemma_skip_of_skip(bytes@, i as int, width as int);
        }
        i += width;
    }
    true
}

/// Decide whether `b` is a continuation byte.
fn is_cont(b: u8) -> (r: bool)
    ensures
        r == is_utf8_cont(b),
{
    0x80 <= b && b <= 0xBF
}

/// The character sequence that the standard library's UTF-8 decoding
/// gives to a well-formed byte sequence; it depends on the bytes alone.
pub uninterp spec fn utf8_str_of(bytes: Seq<u8>) -> Seq<char>;

/// Relies on `String::from_utf8` of the standard library: for a vector
/// holding well-formed UTF-8, it returns the string decoded from exactly
/// those bytes.
#[verifier::external_body]
pub(crate) fn utf8_to_string(bytes: Vec<u8>) -> (s: String)
    requires
        is_valid_utf8(bytes@),
    ensures
        s@ == utf8_str_of(bytes@),
{
    String::from_utf8(bytes).unwrap()
}

} // verus!
