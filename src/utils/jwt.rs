//! Signed session tokens (JWT, HS256) and the request-time check that turns a
//! bearer header into verified claims.
//!
//! A token is `H.P.S`: `H` and `P` are the URL-safe base64 of the header
//! `{"typ":"JWT","alg":"HS256"}` and of the claims JSON, and `S` is the HMAC
//! signature of `H.P` under the shared secret. Decoding checks the framing and
//! the signature here; the claims are read from the header and the payload by a
//! reader that the caller hands in (`read_own_claims` reads the form that
//! `encode` writes), and their expiry is checked here again.
use vstd::prelude::*;
use vstd::string::{StrSliceExecFns, StringExecFns};
use vstd::utf8::is_ascii_chars;
use crate::errors::{AppResult, AuthError, Error};
use crate::models::user::PublicUser;
use crate::utils::claims::{
    claims_fit,
    claims_from_json,
    claims_json,
    claims_to_json,
    lemma_claims_json_round_trip,
    lemma_lit_whole,
    parse_claims,
    user_identity,
    AuthToken,
    AuthTokenView,
    Claims,
    ClaimsView,
};
use crate::utils::encoding::{
    base64url_read,
    base64url_text,
    decode_base64url,
    encode_base64url,
    is_base64url_char,
};
use crate::utils::json::match_literal;
use crate::utils::signing::{hs256_signature, sign_hs256, verify_hs256};

verus! {

/// How long a token stays valid after it is issued: thirty days, in seconds.
pub const TOKEN_VALIDITY_SECS: usize = 2592000;

/// The claims issued at `now` for a user.
pub open spec fn claims_issued(user: AuthTokenView, now: nat) -> ClaimsView {
    ClaimsView { exp: (now + TOKEN_VALIDITY_SECS) as nat, iat: now, user }
}

/// The latest issue time whose expiry still fits in a `usize`.
pub open spec fn latest_issue_time() -> int {
    usize::MAX - TOKEN_VALIDITY_SECS
}

/// The issue time that the clock reading `now` gives, kept within the range
/// where the expiry fits.
pub open spec fn issue_time(now: i64) -> nat {
    if now < 0 {
        0
    } else if now > latest_issue_time() {
        latest_issue_time() as nat
    } else {
        now as nat
    }
}

impl Claims {
    /// The claims for `user`, issued at `now` and expiring after the validity window.
    pub fn issued_at(user: PublicUser, now: usize) -> (r: Claims)
        requires
            now <= usize::MAX - TOKEN_VALIDITY_SECS,
        ensures
            r@ == claims_issued(user_identity(user), now as nat),
    {
        Claims { exp: now + TOKEN_VALIDITY_SECS, iat: now, user: AuthToken::from(user) }
    }

    /// The claims for `user`, issued now.
    pub fn new(user: PublicUser) -> (r: Claims)
        ensures
            r.user@ == user_identity(user),
            r.exp == r.iat + TOKEN_VALIDITY_SECS,
    {
        let now = current_timestamp();
        Claims::issued_at(user, clamp_issue_time(now))
    }
}

/// The issue time for the clock reading `now`.
pub fn clamp_issue_time(now: i64) -> (r: usize)
    ensures
        r == issue_time(now),
{
    if now < 0 {
        0
    } else if now as u64 > (usize::MAX - TOKEN_VALIDITY_SECS) as u64 {
        usize::MAX - TOKEN_VALIDITY_SECS
    } else {
        now as usize
    }
}

/// Relies on chrono::Local::now: the current time, in whole seconds since the
/// Unix epoch. Nothing is known of the value.
#[verifier::external_body]
pub(crate) fn current_timestamp() -> (r: i64) {
    chrono::Local::now().timestamp()
}

/// The token header `{"typ":"JWT","alg":"HS256"}`.
pub open spec fn header_json() -> Seq<u8> {
    seq![
        123u8, 34u8, 116u8, 121u8, 112u8, 34u8, 58u8, 34u8, 74u8, 87u8, 84u8, 34u8, 44u8, 34u8,
        97u8, 108u8, 103u8, 34u8, 58u8, 34u8, 72u8, 83u8, 50u8, 53u8, 54u8, 34u8, 125u8
    ]
}

fn header_bytes() -> (r: Vec<u8>)
    ensures
        r@ == header_json(),
{
    vec![
        123u8, 34u8, 116u8, 121u8, 112u8, 34u8, 58u8, 34u8, 74u8, 87u8, 84u8, 34u8, 44u8, 34u8,
        97u8, 108u8, 103u8, 34u8, 58u8, 34u8, 72u8, 83u8, 50u8, 53u8, 54u8, 34u8, 125u8
    ]
}

/// Every character of `s` is in the URL-safe base64 alphabet.
pub open spec fn all_base64url(s: Seq<char>) -> bool {
    forall|i: int| 0 <= i < s.len() ==> is_base64url_char(#[trigger] s[i])
}

/// The part of a token that the signature covers.
pub open spec fn signing_input(c: ClaimsView) -> Seq<char> {
    base64url_text(header_json()) + seq!['.'] + base64url_text(claims_json(c))
}

/// The token for the claims `c` under `secret`.
pub open spec fn token_text(c: ClaimsView, secret: Seq<char>) -> Seq<char> {
    signing_input(c) + seq!['.'] + hs256_signature(signing_input(c), secret)
}

/// `t` is the token that `encode` issues for the claims `c` under `secret`.
pub open spec fn is_issued_token(t: Seq<char>, c: ClaimsView, secret: Seq<char>) -> bool {
    &&& t == token_text(c, secret)
    &&& claims_fit(c)
    &&& segments_well_formed(c)
    &&& all_base64url(hs256_signature(signing_input(c), secret))
    &&& hs256_signature(signing_input(c), secret).len() == 43
}

/// The position of the first `.` at or after `i`, or the length when there is none.
pub open spec fn next_dot(t: Seq<char>, i: int) -> int
    decreases t.len() - i,
{
    if 0 <= i < t.len() && t[i] != '.' {
        next_dot(t, i + 1)
    } else {
        i
    }
}

/// Where the two dots of a token stand, when it has exactly two.
pub open spec fn token_dots(t: Seq<char>) -> Option<(int, int)> {
    let d1 = next_dot(t, 0);
    let d2 = next_dot(t, d1 + 1);
    if d1 >= t.len() || d2 >= t.len() || next_dot(t, d2 + 1) < t.len() {
        None
    } else {
        Some((d1, d2))
    }
}

/// The decoded header and payload of a token whose signature checks out: the
/// token is ASCII text in three dot-separated segments, the third is the
/// signature of the first two under `secret`, and the first two are URL-safe
/// base64.
pub open spec fn signed_parts(t: Seq<char>, secret: Seq<char>) -> Option<(Seq<u8>, Seq<u8>)> {
    if !is_ascii_chars(t) {
        None
    } else {
        match token_dots(t) {
            None => None,
            Some((d1, d2)) => if t.subrange(d2 + 1, t.len() as int) != hs256_signature(
                t.subrange(0, d2),
                secret,
            ) {
                None
            } else {
                match (base64url_read(t.subrange(0, d1)), base64url_read(t.subrange(d1 + 1, d2))) {
                    (Some(h), Some(p)) => Some((h, p)),
                    _ => None,
                }
            },
        }
    }
}

/// What decoding the token `t` with `secret` at time `now` gives, where `read`
/// reads claims from a header and a payload: when the signature checks out and
/// `read` gives claims that have not expired at `now`, those claims; otherwise
/// `InvalidToken`.
pub open spec fn decode_outcome<R: Fn(Vec<u8>, Vec<u8>) -> Option<Claims>>(
    t: Seq<char>,
    secret: Seq<char>,
    now: int,
    read: R,
    r: AppResult<Claims>,
) -> bool {
    match signed_parts(t, secret) {
        None => r matches Err(Error::Auth(AuthError::InvalidToken)),
        Some((hb, pb)) => exists|h: Vec<u8>, p: Vec<u8>, o: Option<Claims>|
            #![trigger call_ensures(read, (h, p), o)]
            h@ == hb && p@ == pb && call_ensures(read, (h, p), o) && match o {
                Some(c) => if now <= c.exp {
                    r == Ok::<Claims, Error>(c)
                } else {
                    r matches Err(Error::Auth(AuthError::InvalidToken))
                },
                None => r matches Err(Error::Auth(AuthError::InvalidToken)),
            },
    }
}

/// What this library's own reader gives: the claims of the payload when the
/// header is the HS256 header that `encode` writes.
pub open spec fn own_claims(header: Seq<u8>, payload: Seq<u8>) -> Option<ClaimsView> {
    if header == header_json() {
        parse_claims(payload)
    } else {
        None
    }
}

proof fn lemma_next_dot(t: Seq<char>, i: int, j: int)
    requires
        0 <= i <= j < t.len(),
        forall|k: int| i <= k < j ==> t[k] != '.',
        t[j] == '.',
    ensures
        next_dot(t, i) == j,
    decreases j - i,
{
    if i < j {
        lemma_next_dot(t, i + 1, j);
    }
}

/// The first two segments of a token for the claims `c` are non-empty URL-safe
/// base64 text that decodes back to the header and to the claims JSON.
pub open spec fn segments_well_formed(c: ClaimsView) -> bool {
    &&& all_base64url(base64url_text(header_json()))
    &&& all_base64url(base64url_text(claims_json(c)))
    &&& base64url_read(base64url_text(header_json())) == Some(header_json())
    &&& base64url_read(base64url_text(claims_json(c))) == Some(claims_json(c))
    &&& base64url_text(header_json()).len() > 0
    &&& base64url_text(claims_json(c)).len() > 0
}

proof fn lemma_no_dot(t: Seq<char>, i: int)
    requires
        0 <= i <= t.len(),
        forall|k: int| i <= k < t.len() ==> t[k] != '.',
    ensures
        next_dot(t, i) == t.len(),
    decreases t.len() - i,
{
    if i < t.len() {
        lemma_no_dot(t, i + 1);
    }
}

/// Where the segments of a token made of the claims `c` and a signature begin and end.
proof fn lemma_framed_token_parts(t: Seq<char>, c: ClaimsView, sig: Seq<char>)
    requires
        t == signing_input(c) + seq!['.'] + sig,
        segments_well_formed(c),
    ensures
        next_dot(t, 0) == base64url_text(header_json()).len(),
        next_dot(t, next_dot(t, 0) + 1) == signing_input(c).len(),
        signing_input(c).len() < t.len(),
        t.subrange(0, next_dot(t, 0)) == base64url_text(header_json()),
        t.subrange(next_dot(t, 0) + 1, signing_input(c).len() as int) == base64url_text(
            claims_json(c),
        ),
        t.subrange(0, signing_input(c).len() as int) == signing_input(c),
        t.subrange((signing_input(c).len() + 1) as int, t.len() as int) == sig,
{
    let h = base64url_text(header_json());
    let p = base64url_text(claims_json(c));
    let m = signing_input(c);
    assert(t[h.len() as int] == '.');
    assert forall|k: int| 0 <= k < h.len() implies t[k] != '.' by {
        assert(t[k] == h[k]);
        assert(is_base64url_char(h[k]));
    }
    lemma_next_dot(t, 0, h.len() as int);
    assert(t[m.len() as int] == '.');
    assert forall|k: int| h.len() + 1 <= k < m.len() implies t[k] != '.' by {
        assert(t[k] == p[k - h.len() - 1]);
        assert(is_base64url_char(p[k - h.len() - 1]));
    }
    lemma_next_dot(t, (h.len() + 1) as int, m.len() as int);
    assert(t.subrange(0, h.len() as int) =~= h);
    assert(t.subrange((h.len() + 1) as int, m.len() as int) =~= p);
    assert(t.subrange(0, m.len() as int) =~= m);
    assert(t.subrange((m.len() + 1) as int, t.len() as int) =~= sig);
}

/// Where the segments of an issued token begin and end.
proof fn lemma_issued_token_parts(t: Seq<char>, c: ClaimsView, secret: Seq<char>)
    requires
        is_issued_token(t, c, secret),
    ensures
        next_dot(t, 0) == base64url_text(header_json()).len(),
        next_dot(t, next_dot(t, 0) + 1) == signing_input(c).len(),
        signing_input(c).len() < t.len(),
        t.subrange(0, next_dot(t, 0)) == base64url_text(header_json()),
        t.subrange(next_dot(t, 0) + 1, signing_input(c).len() as int) == base64url_text(
            claims_json(c),
        ),
        t.subrange(0, signing_input(c).len() as int) == signing_input(c),
        t.subrange((signing_input(c).len() + 1) as int, t.len() as int) == hs256_signature(
            signing_input(c),
            secret,
        ),
{
    lemma_framed_token_parts(t, c, hs256_signature(signing_input(c), secret));
}

/// An issued token opens, under the secret it was signed with, to the HS256
/// header and its claims JSON, which this library's reader reads back as the
/// claims it was issued with.
pub proof fn lemma_issued_token_opens(t: Seq<char>, c: ClaimsView, secret: Seq<char>)
    requires
        is_issued_token(t, c, secret),
    ensures
        signed_parts(t, secret) == Some((header_json(), claims_json(c))),
        own_claims(header_json(), claims_json(c)) == Some(c),
{
    lemma_claims_json_round_trip(c);
    let m = signing_input(c);
    let s = hs256_signature(m, secret);
    lemma_issued_token_parts(t, c, secret);
    lemma_issued_token_ascii(t, c, secret);
    assert forall|k: int| m.len() + 1 <= k < t.len() implies t[k] != '.' by {
        assert(t[k] == s[k - m.len() - 1]);
        assert(is_base64url_char(s[k - m.len() - 1]));
    }
    lemma_no_dot(t, (m.len() + 1) as int);
}

/// A token whose signature segment is not the signature of its first two
/// segments under the secret is refused, whatever the reader and the time: in
/// particular an issued token with any character of its signature changed.
pub proof fn lemma_wrong_signature_refused(c: ClaimsView, sig: Seq<char>, secret: Seq<char>)
    requires
        segments_well_formed(c),
        sig != hs256_signature(signing_input(c), secret),
    ensures
        signed_parts(signing_input(c) + seq!['.'] + sig, secret) is None,
{
    lemma_framed_token_parts(signing_input(c) + seq!['.'] + sig, c, sig);
}

fn find_dot(t: &str, start: usize, n: usize) -> (r: usize)
    requires
        n == t@.len(),
        start <= n,
        is_ascii_chars(t@),
    ensures
        r == next_dot(t@, start as int),
        start <= r <= n,
{
    let mut i = start;
    while i < n && t.get_ascii(i) != 46u8
        invariant
            start <= i <= n,
            n == t@.len(),
            is_ascii_chars(t@),
            next_dot(t@, start as int) == next_dot(t@, i as int),
        decreases n - i,
    {
        proof {
            lemma_ascii_dot(t@[i as int]);
        }
        i = i + 1;
    }
    proof {
        if i < n {
            lemma_ascii_dot(t@[i as int]);
        }
    }
    i
}

proof fn lemma_ascii_dot(c: char)
    requires
        '\0' <= c <= '\u{7f}',
    ensures
        (c as u8 == 46u8) <==> (c == '.'),
{
}

proof fn lemma_issued_token_ascii(t: Seq<char>, c: ClaimsView, secret: Seq<char>)
    requires
        is_issued_token(t, c, secret),
    ensures
        is_ascii_chars(t),
{
    let h = base64url_text(header_json());
    let p = base64url_text(claims_json(c));
    let s = hs256_signature(signing_input(c), secret);
    assert forall|i: int| 0 <= i < t.len() implies '\0' <= #[trigger] t[i] <= '\u{7f}' by {
        if i < h.len() {
            assert(t[i] == h[i] && is_base64url_char(h[i]));
        } else if i == h.len() {
        } else if i < h.len() + 1 + p.len() {
            assert(t[i] == p[i - h.len() - 1] && is_base64url_char(p[i - h.len() - 1]));
        } else if i == h.len() + 1 + p.len() {
        } else {
            let k = i - h.len() - 2 - p.len();
            assert(t[i] == s[k] && is_base64url_char(s[k]));
        }
    }
}

/// Issues the token for `claims` under `secret`.
pub fn encode_claims(claims: &Claims, secret: &str) -> (r: AppResult<String>)
    ensures
        r matches Ok(t) && is_issued_token(t@, claims@, secret@),
{
    let header = encode_base64url(header_bytes().as_slice());
    let payload = encode_base64url(claims_to_json(claims).as_slice());
    let mut message = header.clone();
    message.append(".");
    message.append(payload.as_str());
    proof {
        reveal_strlit(".");
    }
    assert(message@ =~= signing_input(claims@));
    match sign_hs256(message.as_str(), secret) {
        Ok(signature) => {
            let mut token = message;
            token.append(".");
            token.append(signature.as_str());
            assert(token@ =~= token_text(claims@, secret@));
            Ok(token)
        },
        Err(_) => Err(Error::Auth(AuthError::TokenCreation)),
    }
}

/// Issues a token for `user`, valid for thirty days from `now`.
pub fn encode_at(user: PublicUser, secret: &str, now: usize) -> (r: AppResult<String>)
    requires
        now <= usize::MAX - TOKEN_VALIDITY_SECS,
    ensures
        r matches Ok(t) && is_issued_token(
            t@,
            claims_issued(user_identity(user), now as nat),
            secret@,
        ),
{
    let claims = Claims::issued_at(user, now);
    encode_claims(&claims, secret)
}

/// Issues a token for `user`, valid for thirty days from now.
pub fn encode(user: PublicUser, secret: &str) -> (r: AppResult<String>)
    ensures
        r matches Ok(t) && exists|now: nat|
            #![trigger claims_issued(user_identity(user), now)]
            is_issued_token(t@, claims_issued(user_identity(user), now), secret@),
{
    let now = clamp_issue_time(current_timestamp());
    let r = encode_at(user, secret, now);
    assert(r matches Ok(t) && is_issued_token(
        t@,
        claims_issued(user_identity(user), now as nat),
        secret@,
    ));
    r
}

/// The decoded header and payload of `token`, when its signature checks out
/// under `secret`.
pub fn open_token(token: &str, secret: &str) -> (r: Option<(Vec<u8>, Vec<u8>)>)
    ensures
        match signed_parts(token@, secret@) {
            Some((h, p)) => r matches Some((x, y)) && x@ == h && y@ == p,
            None => r is None,
        },
{
    if !token.is_ascii() {
        return None;
    }
    let n = token.unicode_len();
    let d1 = find_dot(token, 0, n);
    let d2 = if d1 < n {
        find_dot(token, d1 + 1, n)
    } else {
        n
    };
    let d3 = if d2 < n {
        find_dot(token, d2 + 1, n)
    } else {
        n
    };
    if d1 >= n || d2 >= n || d3 < n {
        return None;
    }
    let header_part = token.substring_ascii(0, d1);
    let payload_part = token.substring_ascii(d1 + 1, d2);
    let message = token.substring_ascii(0, d2);
    let signature = token.substring_ascii(d2 + 1, n);
    match verify_hs256(signature, message, secret) {
        Ok(true) => {},
        _ => {
            return None;
        },
    }
    match (decode_base64url(header_part), decode_base64url(payload_part)) {
        (Some(h), Some(p)) => Some((h, p)),
        _ => None,
    }
}

/// Reads claims in the form that `encode` writes: the HS256 header and the
/// claims JSON of `claims_to_json`.
pub fn read_own_claims(header: Vec<u8>, payload: Vec<u8>) -> (r: Option<Claims>)
    ensures
        match own_claims(header@, payload@) {
            Some(c) => r matches Some(x) && x@ == c,
            None => r is None,
        },
{
    let expected = header_bytes();
    proof {
        lemma_lit_whole(header@);
    }
    if header.len() != expected.len() || !match_literal(&header, 0, &expected) {
        return None;
    }
    assert(header@ =~= header_json()) by {
        assert(header@.subrange(0, header@.len() as int) =~= header@);
    }
    claims_from_json(&payload)
}

/// Checks the token `token` against `secret` at time `now` (seconds since the
/// Unix epoch) and gives its claims, as `read` reads them from the header and
/// the payload.
pub fn decode_at<R: Fn(Vec<u8>, Vec<u8>) -> Option<Claims>>(
    token: &str,
    secret: &str,
    now: i64,
    read: R,
) -> (r: AppResult<Claims>)
    requires
        forall|h: Vec<u8>, p: Vec<u8>| #[trigger] call_requires(read, (h, p)),
    ensures
        decode_outcome(token@, secret@, now as int, read, r),
        r matches Ok(x) ==> now <= x.exp,
        r is Err ==> r matches Err(Error::Auth(AuthError::InvalidToken)),
{
    let (header, payload) = match open_token(token, secret) {
        Some(parts) => parts,
        None => {
            return Err(Error::Auth(AuthError::InvalidToken));
        },
    };
    let ghost h = header;
    let ghost p = payload;
    let claims = read(header, payload);
    let ghost o = claims;
    let r = match claims {
        Some(c) => {
            if now < 0 || (now as u64) <= (c.exp as u64) {
                Ok(c)
            } else {
                Err(Error::Auth(AuthError::InvalidToken))
            }
        },
        None => Err(Error::Auth(AuthError::InvalidToken)),
    };
    assert(call_ensures(read, (h, p), o));
    r
}

/// Checks the token `token` against `secret` now and gives its claims, as
/// `read` reads them from the header and the payload.
pub fn decode<R: Fn(Vec<u8>, Vec<u8>) -> Option<Claims>>(token: &str, secret: &str, read: R) -> (r:
    AppResult<Claims>)
    requires
        forall|h: Vec<u8>, p: Vec<u8>| #[trigger] call_requires(read, (h, p)),
    ensures
        exists|now: i64| #[trigger] decode_outcome(token@, secret@, now as int, read, r),
        r is Err ==> r matches Err(Error::Auth(AuthError::InvalidToken)),
{
    let now = current_timestamp();
    let r = decode_at(token, secret, now, read);
    assert(decode_outcome(token@, secret@, now as int, read, r));
    r
}

} // verus!
verus! {

/// The token of an `Authorization` header value: what follows `Bearer `.
pub open spec fn bearer_token(header: Seq<char>) -> Option<Seq<char>> {
    if header.len() >= 7 && header.subrange(0, 7) == seq!['B', 'e', 'a', 'r', 'e', 'r', ' '] {
        Some(header.subrange(7, header.len() as int))
    } else {
        None
    }
}

/// What the request guard gives for an `Authorization` header (or none) with
/// `secret` at time `now`: `InvalidToken` when the header is missing or is not
/// a bearer header, else what decoding its token gives.
pub open spec fn authenticate_outcome<R: Fn(Vec<u8>, Vec<u8>) -> Option<Claims>>(
    authorization: Option<Seq<char>>,
    secret: Seq<char>,
    now: int,
    read: R,
    r: AppResult<Claims>,
) -> bool {
    match authorization {
        None => r matches Err(Error::Auth(AuthError::InvalidToken)),
        Some(h) => match bearer_token(h) {
            None => r matches Err(Error::Auth(AuthError::InvalidToken)),
            Some(t) => decode_outcome(t, secret, now, read, r),
        },
    }
}

pub open spec fn header_view(authorization: Option<&str>) -> Option<Seq<char>> {
    match authorization {
        Some(h) => Some(h@),
        None => None,
    }
}

fn bearer_prefix(header: &str, n: usize) -> (r: bool)
    requires
        n == header@.len(),
    ensures
        r == (header@.len() >= 7 && header@.subrange(0, 7) == seq![
            'B',
            'e',
            'a',
            'r',
            'e',
            'r',
            ' ',
        ]),
{
    if n < 7 {
        return false;
    }
    let r = header.get_char(0) == 'B' && header.get_char(1) == 'e' && header.get_char(2) == 'a'
        && header.get_char(3) == 'r' && header.get_char(4) == 'e' && header.get_char(5) == 'r'
        && header.get_char(6) == ' ';
    assert(r ==> header@.subrange(0, 7) =~= seq!['B', 'e', 'a', 'r', 'e', 'r', ' ']);
    assert(header@.subrange(0, 7) == seq!['B', 'e', 'a', 'r', 'e', 'r', ' '] ==> r) by {
        if header@.subrange(0, 7) == seq!['B', 'e', 'a', 'r', 'e', 'r', ' '] {
            assert(header@[0] == header@.subrange(0, 7)[0]);
            assert(header@[1] == header@.subrange(0, 7)[1]);
            assert(header@[2] == header@.subrange(0, 7)[2]);
            assert(header@[3] == header@.subrange(0, 7)[3]);
            assert(header@[4] == header@.subrange(0, 7)[4]);
            assert(header@[5] == header@.subrange(0, 7)[5]);
            assert(header@[6] == header@.subrange(0, 7)[6]);
        }
    }
    r
}

/// Authenticates a request by its `Authorization` header at time `now`, with
/// `read` reading the claims from the token's header and payload.
pub fn authenticate_at<R: Fn(Vec<u8>, Vec<u8>) -> Option<Claims>>(
    authorization: Option<&str>,
    secret: &str,
    now: i64,
    read: R,
) -> (r: AppResult<Claims>)
    requires
        forall|h: Vec<u8>, p: Vec<u8>| #[trigger] call_requires(read, (h, p)),
    ensures
        authenticate_outcome(header_view(authorization), secret@, now as int, read, r),
        authorization is None ==> r matches Err(Error::Auth(AuthError::InvalidToken)),
        r is Err ==> r matches Err(Error::Auth(AuthError::InvalidToken)),
{
    let header = match authorization {
        Some(h) => h,
        None => {
            return Err(Error::Auth(AuthError::InvalidToken));
        },
    };
    let n = header.unicode_len();
    if !bearer_prefix(header, n) {
        return Err(Error::Auth(AuthError::InvalidToken));
    }
    let token = header.substring_char(7, n);
    decode_at(token, secret, now, read)
}

/// Authenticates a request by its `Authorization` header now, with `read`
/// reading the claims from the token's header and payload.
pub fn authenticate<R: Fn(Vec<u8>, Vec<u8>) -> Option<Claims>>(
    authorization: Option<&str>,
    secret: &str,
    read: R,
) -> (r: AppResult<Claims>)
    requires
        forall|h: Vec<u8>, p: Vec<u8>| #[trigger] call_requires(read, (h, p)),
    ensures
        exists|now: i64| #[trigger]
            authenticate_outcome(header_view(authorization), secret@, now as int, read, r),
        authorization is None ==> r matches Err(Error::Auth(AuthError::InvalidToken)),
        r is Err ==> r matches Err(Error::Auth(AuthError::InvalidToken)),
{
    let now = current_timestamp();
    let r = authenticate_at(authorization, secret, now, read);
    assert(authenticate_outcome(header_view(authorization), secret@, now as int, read, r));
    r
}

} // verus!
