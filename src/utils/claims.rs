//! Claims: what a token says, and their JSON text. The text is written in one
//! fixed form, and the reader reads back exactly what the writer wrote.
use vstd::prelude::*;
use vstd::utf8::{decode_utf8, encode_utf8, valid_utf8};
use crate::models::user::PublicUser;
use crate::utils::encoding::string_from_utf8;
use crate::utils::json::{
    decimal,
    escaped,
    is_digit,
    lemma_lit_first,
    lemma_lit_split,
    lemma_read_integer_back,
    lemma_read_natural_back,
    lemma_read_string_back,
    lit_at,
    match_literal,
    read_integer,
    read_integer_spec,
    read_natural,
    read_natural_spec,
    read_string,
    read_string_spec,
    signed_decimal,
    write_bytes,
    write_escaped,
    write_integer,
    write_natural,
};

verus! {

/// The identity that a token carries.
#[derive(Debug)]
pub struct AuthToken {
    pub id: i32,
    pub name: String,
    pub email: String,
}

/// The identity of a token as mathematical values.
pub struct AuthTokenView {
    pub id: int,
    pub name: Seq<char>,
    pub email: Seq<char>,
}

impl View for AuthToken {
    type V = AuthTokenView;

    open spec fn view(&self) -> AuthTokenView {
        AuthTokenView { id: self.id as int, name: self.name@, email: self.email@ }
    }
}

impl From<PublicUser> for AuthToken {
    fn from(value: PublicUser) -> (r: AuthToken)
        ensures
            r.id == value.id,
            r.name == value.name,
            r.email == value.email,
    {
        AuthToken { id: value.id, name: value.name, email: value.email }
    }
}

impl vstd::std_specs::convert::FromSpecImpl<PublicUser> for AuthToken {
    open spec fn obeys_from_spec() -> bool {
        true
    }

    open spec fn from_spec(value: PublicUser) -> AuthToken {
        AuthToken { id: value.id, name: value.name, email: value.email }
    }
}

/// The identity fields of a user, as a token carries them.
pub open spec fn user_identity(u: PublicUser) -> AuthTokenView {
    AuthTokenView { id: u.id as int, name: u.name@, email: u.email@ }
}

/// What a token says: who it is for, when it was issued and when it expires
/// (seconds since the Unix epoch).
#[derive(Debug)]
pub struct Claims {
    pub exp: usize,
    pub iat: usize,
    pub user: AuthToken,
}

/// Claims as mathematical values.
pub struct ClaimsView {
    pub exp: nat,
    pub iat: nat,
    pub user: AuthTokenView,
}

impl View for Claims {
    type V = ClaimsView;

    open spec fn view(&self) -> ClaimsView {
        ClaimsView { exp: self.exp as nat, iat: self.iat as nat, user: self.user@ }
    }
}

/// The claims view of some `Claims` value: its numbers fit their fields.
pub open spec fn claims_fit(c: ClaimsView) -> bool {
    c.exp <= usize::MAX && c.iat <= usize::MAX && i32::MIN <= c.user.id <= i32::MAX
}

pub open spec fn lit_exp() -> Seq<u8> {
    seq![123u8, 34u8, 101u8, 120u8, 112u8, 34u8, 58u8]
}

pub open spec fn lit_iat() -> Seq<u8> {
    seq![44u8, 34u8, 105u8, 97u8, 116u8, 34u8, 58u8]
}

pub open spec fn lit_user() -> Seq<u8> {
    seq![44u8, 34u8, 117u8, 115u8, 101u8, 114u8, 34u8, 58u8, 123u8, 34u8, 105u8, 100u8, 34u8, 58u8]
}

pub open spec fn lit_name() -> Seq<u8> {
    seq![44u8, 34u8, 110u8, 97u8, 109u8, 101u8, 34u8, 58u8, 34u8]
}

pub open spec fn lit_email() -> Seq<u8> {
    seq![44u8, 34u8, 101u8, 109u8, 97u8, 105u8, 108u8, 34u8, 58u8, 34u8]
}

pub open spec fn lit_end() -> Seq<u8> {
    seq![125u8, 125u8]
}

fn lit_exp_bytes() -> (r: Vec<u8>)
    ensures
        r@ == lit_exp(),
{
    vec![123u8, 34u8, 101u8, 120u8, 112u8, 34u8, 58u8]
}

fn lit_iat_bytes() -> (r: Vec<u8>)
    ensures
        r@ == lit_iat(),
{
    vec![44u8, 34u8, 105u8, 97u8, 116u8, 34u8, 58u8]
}

fn lit_user_bytes() -> (r: Vec<u8>)
    ensures
        r@ == lit_user(),
{
    vec![44u8, 34u8, 117u8, 115u8, 101u8, 114u8, 34u8, 58u8, 123u8, 34u8, 105u8, 100u8, 34u8, 58u8]
}

fn lit_name_bytes() -> (r: Vec<u8>)
    ensures
        r@ == lit_name(),
{
    vec![44u8, 34u8, 110u8, 97u8, 109u8, 101u8, 34u8, 58u8, 34u8]
}

fn lit_email_bytes() -> (r: Vec<u8>)
    ensures
        r@ == lit_email(),
{
    vec![44u8, 34u8, 101u8, 109u8, 97u8, 105u8, 108u8, 34u8, 58u8, 34u8]
}

fn lit_end_bytes() -> (r: Vec<u8>)
    ensures
        r@ == lit_end(),
{
    vec![125u8, 125u8]
}

/// The JSON text of some claims, fields in the order `exp`, `iat`, `user`
/// (`id`, `name`, `email`), without whitespace.
pub open spec fn claims_json(c: ClaimsView) -> Seq<u8> {
    lit_exp() + decimal(c.exp) + lit_iat() + decimal(c.iat) + lit_user() + signed_decimal(c.user.id)
        + lit_name() + escaped(encode_utf8(c.user.name)) + seq![34u8] + lit_email() + escaped(
        encode_utf8(c.user.email),
    ) + seq![34u8] + lit_end()
}

/// Reads the fragment `lit` at `p` and the number after it, when it fits a `usize`.
#[verifier::opaque]
pub open spec fn field_natural(b: Seq<u8>, p: int, lit: Seq<u8>) -> Option<(nat, int)> {
    if !lit_at(b, p, lit) {
        None
    } else {
        match read_natural_spec(b, p + lit.len()) {
            Some((v, e)) => if v <= usize::MAX {
                Some((v, e))
            } else {
                None
            },
            None => None,
        }
    }
}

/// Reads the fragment `lit` at `p` and the integer after it, when it fits an `i32`.
#[verifier::opaque]
pub open spec fn field_integer(b: Seq<u8>, p: int, lit: Seq<u8>) -> Option<(int, int)> {
    if !lit_at(b, p, lit) {
        None
    } else {
        match read_integer_spec(b, p + lit.len()) {
            Some((v, e)) => if i32::MIN <= v <= i32::MAX {
                Some((v, e))
            } else {
                None
            },
            None => None,
        }
    }
}

/// Reads the fragment `lit` at `p` and the string body after it.
#[verifier::opaque]
pub open spec fn field_string(b: Seq<u8>, p: int, lit: Seq<u8>) -> Option<(Seq<u8>, int)> {
    if !lit_at(b, p, lit) {
        None
    } else {
        read_string_spec(b, p + lit.len())
    }
}

/// Reads claims JSON in the form that `claims_json` writes.
pub open spec fn parse_claims(b: Seq<u8>) -> Option<ClaimsView> {
    match field_natural(b, 0, lit_exp()) {
        None => None,
        Some((exp, p1)) => match field_natural(b, p1, lit_iat()) {
            None => None,
            Some((iat, p2)) => match field_integer(b, p2, lit_user()) {
                None => None,
                Some((id, p3)) => match field_string(b, p3, lit_name()) {
                    None => None,
                    Some((name, p4)) => match field_string(b, p4, lit_email()) {
                        None => None,
                        Some((email, p5)) => if !lit_at(b, p5, lit_end()) || p5 + 2 != b.len()
                            || !valid_utf8(name) || !valid_utf8(email) {
                            None
                        } else {
                            Some(
                                ClaimsView {
                                    exp,
                                    iat,
                                    user: AuthTokenView {
                                        id,
                                        name: decode_utf8(name),
                                        email: decode_utf8(email),
                                    },
                                },
                            )
                        },
                    },
                },
            },
        },
    }
}

/// Writes the claims JSON of `c`.
pub fn claims_to_json(c: &Claims) -> (r: Vec<u8>)
    ensures
        r@ == claims_json(c@),
{
    let mut out: Vec<u8> = Vec::new();
    write_bytes(&mut out, &lit_exp_bytes());
    write_natural(&mut out, c.exp as u64);
    write_bytes(&mut out, &lit_iat_bytes());
    write_natural(&mut out, c.iat as u64);
    write_bytes(&mut out, &lit_user_bytes());
    write_integer(&mut out, c.user.id);
    write_bytes(&mut out, &lit_name_bytes());
    write_escaped(&mut out, c.user.name.as_str().as_bytes());
    out.push(34u8);
    write_bytes(&mut out, &lit_email_bytes());
    write_escaped(&mut out, c.user.email.as_str().as_bytes());
    out.push(34u8);
    write_bytes(&mut out, &lit_end_bytes());
    assert(out@ =~= claims_json(c@));
    out
}

fn read_field_natural(b: &Vec<u8>, p: usize, lit: &Vec<u8>) -> (r: Option<(usize, usize)>)
    ensures
        match field_natural(b@, p as int, lit@) {
            Some((v, e)) => r matches Some((x, y)) && x as nat == v && y as int == e,
            None => r is None,
        },
{
    reveal(field_natural);
    if !match_literal(b, p, lit) {
        return None;
    }
    match read_natural(b, p + lit.len()) {
        Some((v, e)) => if v <= usize::MAX as u64 {
            Some((v as usize, e))
        } else {
            None
        },
        None => None,
    }
}

fn read_field_integer(b: &Vec<u8>, p: usize, lit: &Vec<u8>) -> (r: Option<(i32, usize)>)
    ensures
        match field_integer(b@, p as int, lit@) {
            Some((v, e)) => r matches Some((x, y)) && x as int == v && y as int == e,
            None => r is None,
        },
{
    reveal(field_integer);
    if !match_literal(b, p, lit) {
        return None;
    }
    read_integer(b, p + lit.len())
}

fn read_field_string(b: &Vec<u8>, p: usize, lit: &Vec<u8>) -> (r: Option<(Vec<u8>, usize)>)
    ensures
        match field_string(b@, p as int, lit@) {
            Some((s, e)) => r matches Some((v, e2)) && v@ == s && e2 == e,
            None => r is None,
        },
{
    reveal(field_string);
    if !match_literal(b, p, lit) {
        return None;
    }
    read_string(b, p + lit.len())
}

/// Reads claims JSON in the form that `claims_to_json` writes.
pub fn claims_from_json(b: &Vec<u8>) -> (r: Option<Claims>)
    ensures
        match parse_claims(b@) {
            Some(c) => r matches Some(x) && x@ == c,
            None => r is None,
        },
{
    let (exp, p1) = match read_field_natural(b, 0, &lit_exp_bytes()) {
        Some(x) => x,
        None => return None,
    };
    let (iat, p2) = match read_field_natural(b, p1, &lit_iat_bytes()) {
        Some(x) => x,
        None => return None,
    };
    let (id, p3) = match read_field_integer(b, p2, &lit_user_bytes()) {
        Some(x) => x,
        None => return None,
    };
    let (name, p4) = match read_field_string(b, p3, &lit_name_bytes()) {
        Some(x) => x,
        None => return None,
    };
    let (email, p5) = match read_field_string(b, p4, &lit_email_bytes()) {
        Some(x) => x,
        None => return None,
    };
    if !match_literal(b, p5, &lit_end_bytes()) || p5 != b.len() - 2 {
        return None;
    }
    let name = match string_from_utf8(name) {
        Some(s) => s,
        None => return None,
    };
    let email = match string_from_utf8(email) {
        Some(s) => s,
        None => return None,
    };
    Some(Claims { exp, iat, user: AuthToken { id, name, email } })
}

pub proof fn lemma_lit_whole(b: Seq<u8>)
    ensures
        lit_at(b, 0, b),
{
    assert(b.subrange(0, b.len() as int) =~= b);
}

proof fn lemma_lit_join(b: Seq<u8>, i: int, x: Seq<u8>, y: Seq<u8>)
    requires
        lit_at(b, i, x),
        lit_at(b, i + x.len(), y),
    ensures
        lit_at(b, i, x + y),
{
    assert forall|k: int| 0 <= k < (x + y).len() implies b.subrange(i, i + (x + y).len())[k] == (x
        + y)[k] by {
        if k < x.len() {
            assert(b.subrange(i, i + x.len())[k] == x[k]);
        } else {
            assert(b.subrange(i + x.len(), i + x.len() + y.len())[k - x.len()] == y[k - x.len()]);
        }
    }
    assert(b.subrange(i, i + (x + y).len()) =~= x + y);
}

proof fn lemma_field_natural(b: Seq<u8>, p: int, lit: Seq<u8>, v: nat)
    requires
        lit_at(b, p, lit + decimal(v)),
        p + lit.len() + decimal(v).len() < b.len(),
        !is_digit(b[p + lit.len() + decimal(v).len()]),
        v <= usize::MAX,
    ensures
        field_natural(b, p, lit) == Some((v, p + lit.len() + decimal(v).len())),
{
    reveal(field_natural);
    lemma_lit_split(b, p, lit, decimal(v));
    lemma_read_natural_back(b, p + lit.len(), v);
}

proof fn lemma_field_integer(b: Seq<u8>, p: int, lit: Seq<u8>, v: int)
    requires
        lit_at(b, p, lit + signed_decimal(v)),
        p + lit.len() + signed_decimal(v).len() < b.len(),
        !is_digit(b[p + lit.len() + signed_decimal(v).len()]),
        i32::MIN <= v <= i32::MAX,
    ensures
        field_integer(b, p, lit) == Some((v, p + lit.len() + signed_decimal(v).len())),
{
    reveal(field_integer);
    lemma_lit_split(b, p, lit, signed_decimal(v));
    lemma_read_integer_back(b, p + lit.len(), v);
}

proof fn lemma_field_string(b: Seq<u8>, p: int, lit: Seq<u8>, v: Seq<u8>)
    requires
        lit_at(b, p, lit + (escaped(v) + seq![34u8])),
    ensures
        field_string(b, p, lit) == Some((v, p + lit.len() + escaped(v).len() + 1)),
{
    reveal(field_string);
    lemma_lit_split(b, p, lit, escaped(v) + seq![34u8]);
    lemma_read_string_back(b, p + lit.len(), v);
}

pub open spec fn exp_field(c: ClaimsView) -> Seq<u8> {
    lit_exp() + decimal(c.exp)
}

pub open spec fn iat_field(c: ClaimsView) -> Seq<u8> {
    lit_iat() + decimal(c.iat)
}

pub open spec fn id_field(c: ClaimsView) -> Seq<u8> {
    lit_user() + signed_decimal(c.user.id)
}

pub open spec fn name_field(c: ClaimsView) -> Seq<u8> {
    lit_name() + (escaped(encode_utf8(c.user.name)) + seq![34u8])
}

pub open spec fn email_field(c: ClaimsView) -> Seq<u8> {
    lit_email() + (escaped(encode_utf8(c.user.email)) + seq![34u8])
}

proof fn lemma_claims_json_grouped(c: ClaimsView)
    ensures
        claims_json(c) == exp_field(c) + iat_field(c) + id_field(c) + name_field(c) + email_field(c)
            + lit_end(),
{
    assert(claims_json(c) =~= exp_field(c) + iat_field(c) + id_field(c) + name_field(c)
        + email_field(c) + lit_end());
}

proof fn lemma_layout(
    b: Seq<u8>,
    f1: Seq<u8>,
    f2: Seq<u8>,
    f3: Seq<u8>,
    f4: Seq<u8>,
    f5: Seq<u8>,
    e: Seq<u8>,
)
    requires
        b == f1 + f2 + f3 + f4 + f5 + e,
    ensures
        lit_at(b, 0, f1),
        lit_at(b, f1.len() as int, f2),
        lit_at(b, (f1.len() + f2.len()) as int, f3),
        lit_at(b, (f1.len() + f2.len() + f3.len()) as int, f4),
        lit_at(b, (f1.len() + f2.len() + f3.len() + f4.len()) as int, f5),
        lit_at(b, (f1.len() + f2.len() + f3.len() + f4.len() + f5.len()) as int, e),
{
    lemma_lit_whole(b);
    lemma_lit_split(b, 0, f1 + f2 + f3 + f4 + f5, e);
    lemma_lit_split(b, 0, f1 + f2 + f3 + f4, f5);
    lemma_lit_split(b, 0, f1 + f2 + f3, f4);
    lemma_lit_split(b, 0, f1 + f2, f3);
    lemma_lit_split(b, 0, f1, f2);
}

proof fn lemma_claims_json_fields(c: ClaimsView)
    requires
        claims_fit(c),
    ensures
        ({
            let b = claims_json(c);
            let p1: int = exp_field(c).len() as int;
            let p2: int = p1 + iat_field(c).len();
            let p3: int = p2 + id_field(c).len();
            let p4: int = p3 + name_field(c).len();
            let p5: int = p4 + email_field(c).len();
            &&& field_natural(b, 0, lit_exp()) == Some((c.exp, p1))
            &&& field_natural(b, p1, lit_iat()) == Some((c.iat, p2))
            &&& field_integer(b, p2, lit_user()) == Some((c.user.id, p3))
            &&& field_string(b, p3, lit_name()) == Some((encode_utf8(c.user.name), p4))
            &&& field_string(b, p4, lit_email()) == Some((encode_utf8(c.user.email), p5))
            &&& lit_at(b, p5, lit_end())
            &&& p5 + 2 == b.len()
        }),
{
    let b = claims_json(c);
    let f1 = exp_field(c);
    let f2 = iat_field(c);
    let f3 = id_field(c);
    let f4 = name_field(c);
    let f5 = email_field(c);
    lemma_claims_json_grouped(c);
    lemma_layout(b, f1, f2, f3, f4, f5, lit_end());
    let p1: int = f1.len() as int;
    let p2: int = p1 + f2.len();
    let p3: int = p2 + f3.len();
    let p4: int = p3 + f4.len();
    lemma_lit_first(b, p1, f2);
    lemma_lit_first(b, p2, f3);
    lemma_lit_first(b, p3, f4);
    lemma_field_natural(b, 0, lit_exp(), c.exp);
    lemma_field_natural(b, p1, lit_iat(), c.iat);
    lemma_field_integer(b, p2, lit_user(), c.user.id);
    lemma_field_string(b, p3, lit_name(), encode_utf8(c.user.name));
    lemma_field_string(b, p4, lit_email(), encode_utf8(c.user.email));
}

/// What `claims_to_json` writes, `claims_from_json` reads back unchanged.
pub proof fn lemma_claims_json_round_trip(c: ClaimsView)
    requires
        claims_fit(c),
    ensures
        parse_claims(claims_json(c)) == Some(c),
{
    broadcast use vstd::utf8::encode_utf8_valid_utf8, vstd::utf8::encode_utf8_decode_utf8;

    lemma_claims_json_fields(c);
}

} // verus!
