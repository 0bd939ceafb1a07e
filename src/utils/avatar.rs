//! Default avatar addresses, derived from the account's email.
use vstd::prelude::*;
use vstd::string::StringExecFns;
use vstd::utf8::encode_utf8;
use blake2::Digest;
use crate::utils::encoding::{base64_text, encode_base64};
use crate::utils::json::{decimal, signed_decimal};

verus! {

/// The BLAKE2s-256 digest of some bytes.
pub uninterp spec fn blake2s256_of(bytes: Seq<u8>) -> Seq<u8>;

/// Relies on blake2's Blake2s256: the 32-byte BLAKE2s-256 digest of the data.
#[verifier::external_body]
fn blake2s256(data: &[u8]) -> (r: Vec<u8>)
    ensures
        r@ == blake2s256_of(data@),
        r@.len() == 32,
{
    blake2::Blake2s256::digest(data).to_vec()
}

/// ASCII bytes read as characters.
pub open spec fn ascii_text(b: Seq<u8>) -> Seq<char> {
    b.map_values(|c: u8| c as char)
}

/// The avatar address for a digest text and a size in pixels.
pub open spec fn avatar_url(digest_text: Seq<char>, size: int) -> Seq<char> {
    "https://avatars.dicebear.com/api/bottts/"@ + digest_text + ".svg?size="@ + ascii_text(
        signed_decimal(size),
    )
}

fn digit_text(d: u64) -> (r: &'static str)
    requires
        d < 10,
    ensures
        r@ == seq![((48 + d) as u8) as char],
{
    proof {
        reveal_strlit("0");
        reveal_strlit("1");
        reveal_strlit("2");
        reveal_strlit("3");
        reveal_strlit("4");
        reveal_strlit("5");
        reveal_strlit("6");
        reveal_strlit("7");
        reveal_strlit("8");
        reveal_strlit("9");
    }
    if d == 0 {
        "0"
    } else if d == 1 {
        "1"
    } else if d == 2 {
        "2"
    } else if d == 3 {
        "3"
    } else if d == 4 {
        "4"
    } else if d == 5 {
        "5"
    } else if d == 6 {
        "6"
    } else if d == 7 {
        "7"
    } else if d == 8 {
        "8"
    } else {
        "9"
    }
}

fn append_natural_text(out: &mut String, n: u64)
    ensures
        final(out)@ == old(out)@ + ascii_text(decimal(n as nat)),
    decreases n,
{
    if n >= 10 {
        append_natural_text(out, n / 10);
    }
    out.append(digit_text(n % 10));
    proof {
        if n >= 10 {
            assert(ascii_text(decimal(n as nat)) =~= ascii_text(decimal((n / 10) as nat)) + seq![
                ((48 + n % 10) as u8) as char,
            ]);
        } else {
            assert(ascii_text(decimal(n as nat)) =~= seq![((48 + n % 10) as u8) as char]);
        }
        assert(final(out)@ =~= old(out)@ + ascii_text(decimal(n as nat)));
    }
}

/// The avatar address for the text of a digest and a size in pixels.
pub fn avatar_url_for(digest_text: &str, size: i32) -> (r: String)
    ensures
        r@ == avatar_url(digest_text@, size as int),
{
    let mut out = String::from_str("https://avatars.dicebear.com/api/bottts/");
    out.append(digest_text);
    out.append(".svg?size=");
    if size < 0 {
        out.append("-");
        append_natural_text(&mut out, (0 - (size as i64)) as u64);
        proof {
            reveal_strlit("-");
            assert(ascii_text(signed_decimal(size as int)) =~= seq!['-'] + ascii_text(
                decimal((0 - size) as nat),
            ));
        }
    } else {
        append_natural_text(&mut out, size as u64);
    }
    assert(out@ =~= avatar_url(digest_text@, size as int));
    out
}

/// The default avatar address for an email: the standard base64 of the
/// BLAKE2s-256 digest of the email names the picture.
pub fn get_avatar_url(email: &str, size: i32) -> (r: String)
    ensures
        r@ == avatar_url(base64_text(blake2s256_of(encode_utf8(email@))), size as int),
{
    let digest = blake2s256(email.as_bytes());
    let text = encode_base64(digest.as_slice());
    avatar_url_for(text.as_str(), size)
}

} // verus!
