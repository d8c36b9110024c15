//! Percent-encoding of URL components, constant-time comparison, and the
//! characters an HTTP header value may hold.

use vstd::prelude::*;
use subtle::ConstantTimeEq;
use vstd::string::*;

verus! {

/// Whether the byte `b` is left as is by percent-encoding: ASCII letters,
/// digits, `-`, `.`, `_` and `~`.
pub open spec fn url_unreserved(b: u8) -> bool {
    ||| 48 <= b <= 57
    ||| 65 <= b <= 90
    ||| 97 <= b <= 122
    ||| b == 45
    ||| b == 46
    ||| b == 95
    ||| b == 126
}

/// The uppercase hexadecimal digit for `d` (`0 <= d < 16`).
pub open spec fn hex_upper(d: int) -> char {
    if d < 10 {
        (48 + d) as char
    } else {
        (55 + d) as char
    }
}

/// Percent-encoding of `bytes`: unreserved bytes as themselves, every other
/// byte as `%` and two uppercase hexadecimal digits.
pub open spec fn percent_encode(bytes: Seq<u8>) -> Seq<char>
    decreases bytes.len(),
{
    if bytes.len() == 0 {
        seq![]
    } else {
        let b = bytes[0];
        let head = if url_unreserved(b) {
            seq![b as char]
        } else {
            seq!['%', hex_upper((b / 16) as int), hex_upper((b % 16) as int)]
        };
        head + percent_encode(bytes.drop_first())
    }
}

/// Percent-encodes the UTF-8 bytes of `s` (`urlencoding::encode`).
#[verifier::external_body]
pub(crate) fn url_encode(s: &str) -> (r: String)
    ensures
        r@ == percent_encode(s.spec_bytes()),
{
    urlencoding::encode(s).into_owned()
}

/// Compares two byte strings in time independent of their contents when their
/// lengths agree (`subtle::ConstantTimeEq::ct_eq` on slices).
#[verifier::external_body]
pub(crate) fn ct_eq_bytes(a: &[u8], b: &[u8]) -> (r: bool)
    ensures
        r == (a@ == b@),
{
    bool::from(a.ct_eq(b))
}

/// Whether two secrets are equal, compared in constant time: same byte length
/// and same bytes.
pub fn secrets_match(expected: &str, provided: &str) -> (r: bool)
    ensures
        r == (expected.spec_bytes() == provided.spec_bytes()),
{
    let expected_bytes = expected.as_bytes();
    let provided_bytes = provided.as_bytes();
    if expected_bytes.len() != provided_bytes.len() {
        return false;
    }
    ct_eq_bytes(expected_bytes, provided_bytes)
}

/// Whether `c` may stand in an HTTP header value: a byte from 32 to 255 but
/// DEL (127), or a tab. A character beyond ASCII is encoded in bytes of 128
/// and above, all of which are allowed.
pub open spec fn header_char_ok(c: char) -> bool {
    (c as u32 >= 32 && c as u32 != 127) || c == '\t'
}

/// Whether every character of `s` may stand in a header value.
pub open spec fn header_text_ok(s: Seq<char>) -> bool {
    forall|i: int| 0 <= i < s.len() ==> header_char_ok(#[trigger] s[i])
}

/// Whether `http::HeaderValue::from_str` accepts `s`: it checks every byte of
/// `s` and refuses a control byte other than tab (below 32, or 127).
#[verifier::external_body]
pub(crate) fn header_value_ok(s: &str) -> (r: bool)
    ensures
        r == header_text_ok(s@),
{
    http::HeaderValue::from_str(s).is_ok()
}

} // verus!
