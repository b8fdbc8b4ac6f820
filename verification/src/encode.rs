//! Percent-encoding, hexadecimal digits and base64, as the outside crates do
//! them.
use vstd::prelude::*;

verus! {

/// The upper-case hexadecimal digit of a number below 16.
pub open spec fn upper_hex(d: int) -> char {
    if d < 10 {
        ((48 + d) as u8) as char
    } else {
        ((55 + d) as u8) as char
    }
}

/// A byte that stands for itself in an encoded URL: a letter, a digit, or one
/// of `-`, `.`, `_`, `~`.
pub open spec fn unreserved(b: u8) -> bool {
    ||| 48 <= b <= 57
    ||| 65 <= b <= 90
    ||| 97 <= b <= 122
    ||| b == 45
    ||| b == 46
    ||| b == 95
    ||| b == 126
}

/// The bytes as they stand in a URL: each unreserved one as itself, each other
/// one as `%` and its two digits.
pub open spec fn percent_encoded(bytes: Seq<u8>) -> Seq<char>
    decreases bytes.len(),
{
    if bytes.len() == 0 {
        seq![]
    } else {
        let b = bytes.last();
        let before = percent_encoded(bytes.drop_last());
        if unreserved(b) {
            before.push(b as char)
        } else {
            before.push('%').push(upper_hex(b as int / 16)).push(upper_hex(b as int % 16))
        }
    }
}

/// A text as it stands in a URL.
pub open spec fn url_encoded(s: Seq<char>) -> Seq<char> {
    percent_encoded(vstd::utf8::encode_utf8(s))
}

/// `urlencoding::encode`: the UTF-8 bytes of the text, percent-encoded.
#[verifier::external_body]
pub(crate) fn url_encode(s: &str) -> (r: String)
    ensures
        r@ == url_encoded(s@),
{
    urlencoding::encode(s).into_owned()
}

/// The URL-safe base64 text of bytes, without padding.
pub uninterp spec fn base64_text(bytes: Seq<u8>) -> Seq<char>;

/// The bytes of a URL-safe base64 text without padding; none where it is none.
pub uninterp spec fn base64_bytes(s: Seq<char>) -> Option<Seq<u8>>;

/// `base64::Engine::encode` of `URL_SAFE_NO_PAD`: the text is a function of the
/// bytes, has four characters for every three of them, and is read back as
/// them.
#[verifier::external_body]
pub(crate) fn base64_encode(bytes: &[u8]) -> (r: String)
    ensures
        r@ == base64_text(bytes@),
        r@.len() == (4 * bytes@.len() + 2) / 3,
        base64_bytes(r@) == Some(bytes@),
{
    base64::Engine::encode(&base64::engine::general_purpose::URL_SAFE_NO_PAD, bytes)
}

/// `base64::Engine::decode` of `URL_SAFE_NO_PAD`: the bytes, or that there are
/// none, are a function of the text.
#[verifier::external_body]
pub(crate) fn base64_decode(s: &str) -> (r: Option<Vec<u8>>)
    ensures
        match r {
            Some(v) => base64_bytes(s@) == Some(v@),
            None => base64_bytes(s@) is None,
        },
{
    base64::Engine::decode(&base64::engine::general_purpose::URL_SAFE_NO_PAD, s).ok()
}

} // verus!
