//! Base64 in its two alphabets, and reading bytes back as UTF-8 text.
use vstd::prelude::*;
use vstd::utf8::{decode_utf8, valid_utf8};

verus! {

/// A character of the URL-safe base64 alphabet.
pub open spec fn is_base64url_char(c: char) -> bool {
    ('A' <= c && c <= 'Z') || ('a' <= c && c <= 'z') || ('0' <= c && c <= '9') || c == '-' || c
        == '_'
}

/// The standard, padded base64 text of some bytes.
pub uninterp spec fn base64_text(bytes: Seq<u8>) -> Seq<char>;

/// What standard base64 decoding gives for a text, if the text is well formed.
pub uninterp spec fn base64_read(text: Seq<char>) -> Option<Seq<u8>>;

/// The URL-safe, unpadded base64 text of some bytes.
pub uninterp spec fn base64url_text(bytes: Seq<u8>) -> Seq<char>;

/// What URL-safe base64 decoding gives for a text, if the text is well formed.
pub uninterp spec fn base64url_read(text: Seq<char>) -> Option<Seq<u8>>;

/// Relies on base64::encode: the standard alphabet, with padding; base64::decode
/// gives the bytes back.
#[verifier::external_body]
pub(crate) fn encode_base64(bytes: &[u8]) -> (r: String)
    ensures
        r@ == base64_text(bytes@),
        base64_read(r@) == Some(bytes@),
{
    base64::encode(bytes)
}

/// Relies on base64::decode: it fails on malformed text.
#[verifier::external_body]
pub(crate) fn decode_base64(text: &str) -> (r: Option<Vec<u8>>)
    ensures
        r matches Some(v) ==> base64_read(text@) == Some(v@),
        r is None ==> base64_read(text@) is None,
{
    base64::decode(text).ok()
}

/// Relies on base64::encode_config with URL_SAFE_NO_PAD: the URL-safe alphabet,
/// without padding; base64::decode_config with the same setting gives the bytes
/// back.
#[verifier::external_body]
pub(crate) fn encode_base64url(bytes: &[u8]) -> (r: String)
    ensures
        r@ == base64url_text(bytes@),
        base64url_read(r@) == Some(bytes@),
        bytes@.len() > 0 ==> r@.len() > 0,
        forall|i: int| 0 <= i < r@.len() ==> is_base64url_char(#[trigger] r@[i]),
{
    base64::encode_config(bytes, base64::URL_SAFE_NO_PAD)
}

/// Relies on base64::decode_config with URL_SAFE_NO_PAD: it fails on malformed
/// text.
#[verifier::external_body]
pub(crate) fn decode_base64url(text: &str) -> (r: Option<Vec<u8>>)
    ensures
        r matches Some(v) ==> base64url_read(text@) == Some(v@),
        r is None ==> base64url_read(text@) is None,
{
    base64::decode_config(text, base64::URL_SAFE_NO_PAD).ok()
}

/// Relies on String::from_utf8: it accepts exactly the valid UTF-8 byte
/// sequences and keeps the characters they encode.
#[verifier::external_body]
pub(crate) fn string_from_utf8(bytes: Vec<u8>) -> (r: Option<String>)
    ensures
        r is Some <==> valid_utf8(bytes@),
        r matches Some(s) ==> s@ == decode_utf8(bytes@),
{
    String::from_utf8(bytes).ok()
}

} // verus!
