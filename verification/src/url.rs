//! Percent-encoding of URL query components.
use vstd::prelude::*;

verus! {

/// Bytes left as they are by URL encoding: ASCII alphanumerics and `-._~`.
pub open spec fn unreserved(b: u8) -> bool {
    (48 <= b <= 57) || (65 <= b <= 90) || (97 <= b <= 122) || b == 45 || b == 46 || b == 95 || b
        == 126
}

/// Uppercase hexadecimal digit of a value below 16.
pub open spec fn upper_hex(n: int) -> char {
    if n < 10 {
        (48 + n) as char
    } else {
        (55 + n) as char
    }
}

/// Percent-encoding of UTF-8 bytes: unreserved bytes as themselves, every
/// other byte as `%` and two uppercase hex digits.
pub open spec fn percent_encode(bytes: Seq<u8>) -> Seq<char>
    decreases bytes.len(),
{
    if bytes.len() == 0 {
        Seq::empty()
    } else {
        let b = bytes.last();
        percent_encode(bytes.drop_last()) + if unreserved(b) {
            seq![b as char]
        } else {
            seq!['%', upper_hex(b as int / 16), upper_hex(b as int % 16)]
        }
    }
}

pub open spec fn url_encoded(s: Seq<char>) -> Seq<char> {
    percent_encode(vstd::utf8::encode_utf8(s))
}

/// `urlencoding::encode` (urlencoding): percent-encodes every UTF-8 byte
/// except ASCII alphanumerics and `-`, `_`, `.`, `~`, with uppercase hex.
#[verifier::external_body]
pub(crate) fn url_encode(s: &str) -> (r: String)
    ensures
        r@ == url_encoded(s@),
{
    urlencoding::encode(s).into_owned()
}

} // verus!
