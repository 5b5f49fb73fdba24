//! Percent-encoding of page names for URLs, made by the `urlencoding` crate.
use vstd::prelude::*;
use vstd::utf8::encode_utf8;
use crate::text::{chars_of, to_string};

verus! {

/// The bytes left as they are: ASCII letters and digits, `-`, `.`, `_` and `~`.
pub open spec fn url_safe(b: u8) -> bool {
    (48 <= b <= 57) || (65 <= b <= 90) || (97 <= b <= 122) || b == 45 || b == 46 || b == 95
        || b == 126
}

/// An upper-case hexadecimal digit.
pub open spec fn hex_digit(d: u8) -> char {
    if d < 10 {
        (48 + d) as char
    } else {
        (55 + d) as char
    }
}

/// One byte, encoded.
pub open spec fn encode_byte(b: u8) -> Seq<char> {
    if url_safe(b) {
        seq![b as char]
    } else {
        seq!['%', hex_digit(b / 16), hex_digit(b % 16)]
    }
}

/// The bytes, each encoded, in order.
pub open spec fn url_encoded(bytes: Seq<u8>) -> Seq<char>
    decreases bytes.len(),
{
    if bytes.len() == 0 {
        Seq::empty()
    } else {
        url_encoded(bytes.drop_last()) + encode_byte(bytes.last())
    }
}

/// `urlencoding::encode`: every byte of the UTF-8 form of `s` other than an ASCII letter
/// or digit or one of `-._~` written as `%` and two upper-case hexadecimal digits.
#[verifier::external_body]
fn encode_raw(s: &str) -> (r: String)
    ensures
        r@ == url_encoded(encode_utf8(s@)),
{
    urlencoding::encode(s).into_owned()
}

/// The percent-encoded form of a text.
pub fn url_encode(v: &Vec<char>) -> (r: Vec<char>)
    ensures
        r@ == url_encoded(encode_utf8(v@)),
{
    let s = to_string(v);
    let e = encode_raw(s.as_str());
    chars_of(e.as_str())
}

} // verus!
