//! PKCE (RFC 7636) S256 challenges: `BASE64URL_NO_PAD(SHA256(verifier))`.

use vstd::prelude::*;
use base64::Engine;
use sha2::Digest;
use crate::text::str_eq;
use vstd::string::*;

verus! {

/// The SHA-256 digest of `data`.
pub uninterp spec fn sha256_digest(data: Seq<u8>) -> Seq<u8>;

/// SHA-256 of `data` (`sha2::Sha256::digest`): the named digest of the bytes,
/// 32 bytes long.
#[verifier::external_body]
fn sha256(data: &[u8]) -> (r: Vec<u8>)
    ensures
        r@ == sha256_digest(data@),
        r@.len() == 32,
{
    sha2::Sha256::digest(data).to_vec()
}

/// The character of the URL-safe base64 alphabet for the six-bit value `v`.
pub open spec fn b64url_char(v: int) -> char {
    if v < 26 {
        (65 + v) as char
    } else if v < 52 {
        (97 + v - 26) as char
    } else if v < 62 {
        (48 + v - 52) as char
    } else if v == 62 {
        '-'
    } else {
        '_'
    }
}

/// Base64 of `data` over the URL-safe alphabet, without padding (RFC 4648 §5).
pub open spec fn b64url(data: Seq<u8>) -> Seq<char>
    decreases data.len(),
{
    if data.len() == 0 {
        seq![]
    } else if data.len() == 1 {
        seq![b64url_char((data[0] / 4) as int), b64url_char((data[0] % 4) * 16)]
    } else if data.len() == 2 {
        seq![
            b64url_char((data[0] / 4) as int),
            b64url_char((data[0] % 4) * 16 + data[1] / 16),
            b64url_char((data[1] % 16) * 4),
        ]
    } else {
        seq![
            b64url_char((data[0] / 4) as int),
            b64url_char((data[0] % 4) * 16 + data[1] / 16),
            b64url_char((data[1] % 16) * 4 + data[2] / 64),
            b64url_char((data[2] % 64) as int),
        ] + b64url(data.subrange(3, data.len() as int))
    }
}

/// Base64url without padding (`base64::engine::general_purpose::URL_SAFE_NO_PAD`).
#[verifier::external_body]
fn base64url_encode(data: &[u8]) -> (r: String)
    ensures
        r@ == b64url(data@),
{
    base64::engine::general_purpose::URL_SAFE_NO_PAD.encode(data)
}

/// The S256 challenge of a verifier: base64url (unpadded) of the SHA-256 of
/// its UTF-8 bytes.
pub open spec fn s256_challenge(verifier: Seq<char>) -> Seq<char> {
    b64url(sha256_digest(vstd::utf8::encode_utf8(verifier)))
}

/// The S256 code challenge for `verifier`.
pub fn challenge_from_verifier(verifier: &str) -> (r: String)
    ensures
        r@ == s256_challenge(verifier@),
{
    let hash = sha256(verifier.as_bytes());
    base64url_encode(hash.as_slice())
}

/// Verify a PKCE S256 code challenge: whether
/// `BASE64URL_NO_PAD(SHA256(verifier)) == challenge`.
pub fn verify_s256(verifier: &str, challenge: &str) -> (ok: bool)
    ensures
        ok == (s256_challenge(verifier@) == challenge@),
{
    let computed = challenge_from_verifier(verifier);
    str_eq(computed.as_str(), challenge)
}

} // verus!
