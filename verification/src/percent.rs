//! Percent-encoding of text, as done by the `urlencoding` crate.
use vstd::prelude::*;
use vstd::utf8::encode_utf8;

verus! {

/// A byte that is kept as it is: an ASCII letter or digit, `-`, `.`, `_` or `~`.
pub open spec fn is_unreserved_byte(b: u8) -> bool {
    (48 <= b <= 57) || (65 <= b <= 90) || (97 <= b <= 122) || b == 45 || b == 46 || b == 95 || b
        == 126
}

/// The upper-case hexadecimal digit for a value below 16.
pub open spec fn hex_digit(n: u8) -> char {
    if n < 10 {
        ((48 + n) as u32) as char
    } else {
        ((55 + n) as u32) as char
    }
}

/// Each byte kept when unreserved, else written as `%` and two upper-case hex digits.
pub open spec fn percent_encode_bytes(bytes: Seq<u8>) -> Seq<char>
    decreases bytes.len(),
{
    if bytes.len() == 0 {
        Seq::empty()
    } else {
        let b = bytes[0];
        let head = if is_unreserved_byte(b) {
            seq![(b as u32) as char]
        } else {
            seq!['%', hex_digit(b / 16), hex_digit(b % 16)]
        };
        head + percent_encode_bytes(bytes.drop_first())
    }
}

/// The percent-encoding of the UTF-8 bytes of `s`.
pub open spec fn percent_encode(s: Seq<char>) -> Seq<char> {
    percent_encode_bytes(encode_utf8(s))
}

/// `urlencoding::encode`: every byte of the UTF-8 form of `s` except ASCII
/// letters, digits, `-`, `.`, `_` and `~` is written as `%XX` (upper-case hex),
/// as the crate documents and its `encode_into` does.
#[verifier::external_body]
pub(crate) fn url_encode(s: &str) -> (r: String)
    ensures
        r@ == percent_encode(s@),
{
    urlencoding::encode(s).into_owned()
}

} // verus!
