//! HMAC-SHA256 signatures over token text, as JWT's HS256 makes them.
use vstd::prelude::*;
use crate::utils::encoding::is_base64url_char;
use jsonwebtoken::errors::Error as JwtError;

verus! {

/// The URL-safe base64 HMAC-SHA256 signature of a message under a secret.
pub uninterp spec fn hs256_signature(message: Seq<char>, secret: Seq<char>) -> Seq<char>;

#[verifier::external_type_specification]
#[verifier::external_body]
pub struct ExJwtError(JwtError);

/// Relies on jsonwebtoken::crypto::sign with HS256: the URL-safe base64 of the
/// HMAC-SHA256 of the message's bytes under the secret's bytes, 43 characters
/// for the 32 bytes of the MAC; for the HMAC algorithms it always succeeds.
#[verifier::external_body]
pub(crate) fn sign_hs256(message: &str, secret: &str) -> (r: Result<String, JwtError>)
    ensures
        r is Ok,
        r matches Ok(s) ==> s@ == hs256_signature(message@, secret@),
        r matches Ok(s) ==> s@.len() == 43,
        r matches Ok(s) ==> forall|i: int| 0 <= i < s@.len() ==> is_base64url_char(#[trigger] s@[i]),
{
    jsonwebtoken::crypto::sign(
        message.as_bytes(),
        &jsonwebtoken::EncodingKey::from_secret(secret.as_bytes()),
        jsonwebtoken::Algorithm::HS256,
    )
}

/// Relies on jsonwebtoken::crypto::verify with HS256: it signs the message again
/// and compares the result with the given signature in constant time; for the
/// HMAC algorithms it always succeeds.
#[verifier::external_body]
pub(crate) fn verify_hs256(signature: &str, message: &str, secret: &str) -> (r: Result<
    bool,
    JwtError,
>)
    ensures
        r is Ok,
        r matches Ok(b) ==> b == (signature@ == hs256_signature(message@, secret@)),
{
    jsonwebtoken::crypto::verify(
        signature,
        message.as_bytes(),
        &jsonwebtoken::DecodingKey::from_secret(secret.as_bytes()),
        jsonwebtoken::Algorithm::HS256,
    )
}

} // verus!
