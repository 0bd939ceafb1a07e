use blake2::Digest;
use blog_core::api::auth::{authorize, authorize_at, needs_lookup, AuthPayload};
use blog_core::errors::{AuthError, Error};
use blog_core::models::user::{CreateUser, PublicUser, User};
use blog_core::utils::avatar::{avatar_url_for, get_avatar_url};
use blog_core::utils::hash::{generate_hash, verify_password};
use blog_core::utils::jwt::{decode_at, read_own_claims, TOKEN_VALIDITY_SECS};

const SECRET: &str = "login-secret";
const NOW: usize = 1_650_000_000;

fn stamp() -> chrono::NaiveDateTime {
    chrono::NaiveDate::from_ymd_opt(2022, 1, 2)
        .unwrap()
        .and_hms_opt(3, 4, 5)
        .unwrap()
}

fn account(email: &str, password: &str) -> PublicUser {
    PublicUser {
        id: 21,
        name: "holder".to_string(),
        email: email.to_string(),
        password_hash: generate_hash(password).unwrap(),
        avatar: None,
        created_at: stamp(),
        last_seen: stamp(),
        deleted_at: None,
    }
}

fn payload(email: &str, password: &str) -> AuthPayload {
    AuthPayload { email: email.to_string(), password: password.to_string() }
}

#[test]
fn hash_then_verify_accepts_password() {
    for p in ["correct", "", "pässwörd", "a much longer passphrase with spaces"] {
        let h = generate_hash(p).unwrap();
        assert!(verify_password(p, &h).unwrap());
    }
}

#[test]
fn hash_then_verify_rejects_other_password() {
    let h = generate_hash("correct").unwrap();
    assert!(!verify_password("incorrect", &h).unwrap());
    assert!(!verify_password("", &h).unwrap());
    assert!(!verify_password("Correct", &h).unwrap());
}

#[test]
fn hashing_twice_gives_different_strings() {
    let a = generate_hash("same").unwrap();
    let b = generate_hash("same").unwrap();
    assert_ne!(a, b);
    assert!(verify_password("same", &a).unwrap());
    assert!(verify_password("same", &b).unwrap());
}

#[test]
fn stored_hash_is_base64_of_argon2id_phc() {
    let h = generate_hash("pw").unwrap();
    let phc = String::from_utf8(base64::decode(&h).unwrap()).unwrap();
    assert!(phc.starts_with("$argon2id$v=19$"));
    assert_ne!(phc, h);
}

#[test]
fn malformed_stored_hash_is_an_error() {
    assert!(matches!(verify_password("pw", "not base64!"), Err(Error::HashPassword)));
    let not_phc = base64::encode("plain text");
    assert!(matches!(verify_password("pw", &not_phc), Err(Error::HashPassword)));
    let not_utf8 = base64::encode([0xffu8, 0xfe, 0x00]);
    assert!(matches!(verify_password("pw", &not_utf8), Err(Error::HashPassword)));
}

#[test]
fn login_with_correct_password_returns_token() {
    let acc = account("a@b.com", "correct");
    let resp = authorize_at(&payload("a@b.com", "correct"), Some(acc), SECRET, NOW).unwrap();
    let claims = decode_at(&resp.access_token, SECRET, NOW as i64, read_own_claims).unwrap();
    assert_eq!(claims.user.email, "a@b.com");
    assert_eq!(claims.user.id, 21);
    assert_eq!(claims.exp, NOW + TOKEN_VALIDITY_SECS);
    let acc = account("a@b.com", "correct");
    assert!(authorize(&payload("a@b.com", "correct"), Some(acc), SECRET).is_ok());
}

#[test]
fn login_with_unknown_email_or_wrong_password_is_refused_alike() {
    let unknown = authorize_at(&payload("nobody@b.com", "correct"), None, SECRET, NOW);
    assert!(matches!(unknown, Err(Error::Auth(AuthError::WrongCredentials))));
    let acc = account("a@b.com", "correct");
    let wrong = authorize_at(&payload("a@b.com", "wrong"), Some(acc), SECRET, NOW);
    assert!(matches!(wrong, Err(Error::Auth(AuthError::WrongCredentials))));
    let (a, b) = (unknown.err().unwrap(), wrong.err().unwrap());
    assert_eq!(a.code(), b.code());
    assert_eq!(a.message(), b.message());
}

#[test]
fn login_with_empty_credentials_is_refused_first() {
    let acc = account("a@b.com", "correct");
    let r = authorize_at(&payload("", "correct"), Some(acc), SECRET, NOW);
    assert!(matches!(r, Err(Error::Auth(AuthError::MissingCredentials))));
    let r = authorize_at(&payload("a@b.com", ""), None, SECRET, NOW);
    assert!(matches!(r, Err(Error::Auth(AuthError::MissingCredentials))));
    assert!(!needs_lookup(&payload("", "x")));
    assert!(!needs_lookup(&payload("x", "")));
    assert!(needs_lookup(&payload("x", "y")));
}

#[test]
fn login_against_corrupt_stored_hash_is_a_hash_error() {
    let mut acc = account("a@b.com", "correct");
    acc.password_hash = "%%%".to_string();
    let r = authorize_at(&payload("a@b.com", "correct"), Some(acc), SECRET, NOW);
    assert!(matches!(r, Err(Error::HashPassword)));
}

#[test]
fn avatar_url_has_fixed_shape() {
    assert_eq!(
        avatar_url_for("abc=", 64),
        "https://avatars.dicebear.com/api/bottts/abc=.svg?size=64"
    );
    assert_eq!(
        avatar_url_for("", -120),
        "https://avatars.dicebear.com/api/bottts/.svg?size=-120"
    );
    assert_eq!(
        avatar_url_for("x", i32::MIN),
        "https://avatars.dicebear.com/api/bottts/x.svg?size=-2147483648"
    );
    assert_eq!(avatar_url_for("x", 0), "https://avatars.dicebear.com/api/bottts/x.svg?size=0");
}

#[test]
fn avatar_url_names_blake2s_digest_of_email() {
    let digest = blake2::Blake2s256::digest("a@b.com".as_bytes());
    let expected = format!(
        "https://avatars.dicebear.com/api/bottts/{}.svg?size=64",
        base64::encode(digest)
    );
    let url = get_avatar_url("a@b.com", 64);
    assert_eq!(url, expected);
    assert!(url.contains('='));
    assert_ne!(get_avatar_url("c@d.com", 64), url);
}

#[test]
fn registration_record_hashes_password() {
    let info = CreateUser {
        name: "neo".to_string(),
        password: "matrix".to_string(),
        email: "neo@zion.io".to_string(),
    };
    let rec = User::new_record(&info).unwrap();
    assert_eq!(rec.name, "neo");
    assert_eq!(rec.email, "neo@zion.io");
    assert_ne!(rec.password_hash, "matrix");
    assert!(verify_password("matrix", &rec.password_hash).unwrap());
    assert_eq!(rec.avatar, get_avatar_url("neo@zion.io", 64));
    assert_eq!(rec.role_id, 1);
    assert!(!rec.is_active);
}

#[test]
fn stored_hash_uses_default_argon2id_parameters() {
    let h = generate_hash("pw").unwrap();
    let phc = String::from_utf8(base64::decode(&h).unwrap()).unwrap();
    let prefix = "$argon2id$v=19$m=19456,t=2,p=1$";
    assert!(phc.starts_with(prefix));
    let rest: Vec<&str> = phc[prefix.len()..].split('$').collect();
    assert_eq!(rest.len(), 2);
    assert_eq!(rest[0].len(), 22);
    assert_eq!(rest[1].len(), 43);
}
