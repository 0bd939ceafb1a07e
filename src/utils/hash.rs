//! Password hashes for long-term storage: Argon2id with the default cost
//! parameters and a fresh random salt, kept as the standard base64 of the PHC
//! string.
use vstd::prelude::*;
use vstd::utf8::{decode_utf8, encode_utf8, valid_utf8};
use argon2::password_hash::Error as HashError;
use argon2::password_hash::SaltString;
use crate::errors::{AppResult, Error};
use crate::utils::encoding::{base64_read, base64_text, decode_base64, encode_base64, string_from_utf8};

verus! {

#[verifier::external_type_specification]
#[verifier::external_body]
pub struct ExHashError(HashError);

/// Argon2's verdict on `password` against the PHC string `phc`: `None` when the
/// string is not a password hash, else whether the password matches it.
pub uninterp spec fn argon2_verdict(password: Seq<char>, phc: Seq<char>) -> Option<bool>;

/// The unpadded B64 text (standard alphabet) of some salt bytes, as
/// SaltString writes it.
pub uninterp spec fn salt_text(bytes: Seq<u8>) -> Seq<char>;

/// `s` is the text of a salt of the recommended sixteen bytes.
pub open spec fn is_salt_text(s: Seq<char>) -> bool {
    exists|b: Seq<u8>| b.len() == 16 && s == #[trigger] salt_text(b)
}

/// The start of every PHC string that Argon2 with its default parameters
/// writes: Argon2id, version 19, 19 MiB of memory, two passes, one lane.
pub open spec fn argon2_default_prefix() -> Seq<char> {
    "$argon2id$v=19$m=19456,t=2,p=1$"@
}

/// `phc` is a PHC string of Argon2's default parameters: the prefix, the salt
/// text, and the B64 text of the 32-byte output.
pub open spec fn is_default_argon2_phc(phc: Seq<char>, salt: Seq<char>) -> bool {
    exists|d: Seq<char>|
        d.len() == 43 && phc == #[trigger] (argon2_default_prefix() + salt + seq!['$'] + d)
}

/// Relies on rand_core's OsRng: sixteen bytes from the operating system's
/// random source. Nothing is known of their values.
#[verifier::external_body]
fn random_salt_bytes() -> (r: Vec<u8>)
    ensures
        r@.len() == 16,
{
    let mut bytes = vec![0u8; 16];
    rand_core::RngCore::fill_bytes(&mut rand_core::OsRng, &mut bytes);
    bytes
}

/// Relies on SaltString::encode_b64: the B64 text of the salt bytes, which it
/// writes for any salt of at most 48 bytes.
#[verifier::external_body]
fn encode_salt(bytes: &[u8]) -> (r: Result<String, HashError>)
    ensures
        r matches Ok(t) ==> t@ == salt_text(bytes@),
        bytes@.len() <= 48 ==> r is Ok,
{
    match SaltString::encode_b64(bytes) {
        Ok(s) => Ok(s.as_str().to_string()),
        Err(e) => Err(e),
    }
}

/// Relies on SaltString::from_b64, Argon2::hash_password (default parameters)
/// and PasswordHash's Display: the PHC string of the hash, which holds the
/// parameters and the salt, so that Argon2 accepts the same password for it.
/// Argon2 refuses only passwords longer than 2^32 - 1 bytes and salts that do
/// not decode to 8 to 64 bytes.
#[verifier::external_body]
fn argon2_hash(password: &str, salt: &str) -> (r: Result<String, HashError>)
    ensures
        is_salt_text(salt@) && encode_utf8(password@).len() <= 0xFFFF_FFFF ==> r is Ok,
        r matches Ok(h) ==> argon2_verdict(password@, h@) == Some(true),
        r matches Ok(h) ==> is_default_argon2_phc(h@, salt@),
{
    let salt = match SaltString::from_b64(salt) {
        Ok(s) => s,
        Err(e) => return Err(e),
    };
    match argon2::PasswordHasher::hash_password(
        &argon2::Argon2::default(),
        password.as_bytes(),
        &salt,
    ) {
        Ok(h) => Ok(h.to_string()),
        Err(e) => Err(e),
    }
}

/// Relies on PasswordHash::new, which parses a PHC string, and on
/// Argon2::verify_password, which hashes the password again with the
/// parameters and salt that the string holds and compares the outputs.
#[verifier::external_body]
fn argon2_check(password: &str, phc: &str) -> (r: Result<bool, HashError>)
    ensures
        r matches Ok(b) ==> argon2_verdict(password@, phc@) == Some(b),
        r is Err ==> argon2_verdict(password@, phc@) is None,
{
    match argon2::PasswordHash::new(phc) {
        Ok(parsed) => Ok(
            argon2::PasswordVerifier::verify_password(
                &argon2::Argon2::default(),
                password.as_bytes(),
                &parsed,
            ).is_ok(),
        ),
        Err(e) => Err(e),
    }
}

/// The verdict on `password` against a stored hash: `None` when the stored
/// hash is not base64 of a UTF-8 PHC string that Argon2 can read.
pub open spec fn password_check(password: Seq<char>, stored: Seq<char>) -> Option<bool> {
    match base64_read(stored) {
        None => None,
        Some(bytes) => if valid_utf8(bytes) {
            argon2_verdict(password, decode_utf8(bytes))
        } else {
            None
        },
    }
}

/// `stored` is the standard base64 of the UTF-8 text of a PHC string that
/// Argon2 with its default parameters wrote, with a salt of sixteen bytes.
pub open spec fn is_stored_default_hash(stored: Seq<char>) -> bool {
    exists|phc: Seq<char>, salt: Seq<char>|
        #![trigger is_default_argon2_phc(phc, salt)]
        stored == base64_text(encode_utf8(phc)) && is_salt_text(salt) && is_default_argon2_phc(
            phc,
            salt,
        )
}

/// Hashes `password` for storage, with a fresh random salt of sixteen bytes. It succeeds for
/// every password that Argon2 takes, that is of at most 2^32 - 1 bytes.
pub fn generate_hash(password: &str) -> (r: AppResult<String>)
    ensures
        encode_utf8(password@).len() <= 0xFFFF_FFFF ==> r is Ok,
        r matches Ok(h) ==> password_check(password@, h@) == Some(true),
        r matches Ok(h) ==> is_stored_default_hash(h@),
        r is Err ==> r matches Err(Error::HashPassword),
{
    broadcast use vstd::utf8::encode_utf8_valid_utf8, vstd::utf8::encode_utf8_decode_utf8;

    let bytes = random_salt_bytes();
    let salt = match encode_salt(bytes.as_slice()) {
        Ok(t) => t,
        Err(_) => {
            return Err(Error::HashPassword);
        },
    };
    assert(is_salt_text(salt@)) by {
        assert(bytes@.len() == 16 && salt@ == salt_text(bytes@));
    }
    match argon2_hash(password, salt.as_str()) {
        Ok(phc) => {
            let stored = encode_base64(phc.as_str().as_bytes());
            assert(decode_utf8(encode_utf8(phc@)) == phc@);
            assert(is_default_argon2_phc(phc@, salt@));
            Ok(stored)
        },
        Err(_) => Err(Error::HashPassword),
    }
}

/// Checks `password` against the stored hash `password_hash`. A mismatch is
/// `Ok(false)`; a stored hash that cannot be read is `HashPassword`.
pub fn verify_password(password: &str, password_hash: &str) -> (r: AppResult<bool>)
    ensures
        match password_check(password@, password_hash@) {
            Some(b) => r matches Ok(x) && x == b,
            None => r matches Err(Error::HashPassword),
        },
{
    let bytes = match decode_base64(password_hash) {
        Some(b) => b,
        None => {
            return Err(Error::HashPassword);
        },
    };
    let phc = match string_from_utf8(bytes) {
        Some(s) => s,
        None => {
            return Err(Error::HashPassword);
        },
    };
    match argon2_check(password, phc.as_str()) {
        Ok(b) => Ok(b),
        Err(_) => Err(Error::HashPassword),
    }
}

} // verus!
