use blog_core::errors::{AuthError, Error};
use blog_core::models::user::PublicUser;
use blog_core::utils::claims::{claims_from_json, claims_to_json, AuthToken, Claims};
use blog_core::utils::jwt::{
    authenticate, authenticate_at, decode, decode_at, encode, encode_at, encode_claims, open_token,
    read_own_claims, TOKEN_VALIDITY_SECS,
};

const SECRET: &str = "server-secret";
const NOW: usize = 1_700_000_000;

fn stamp() -> chrono::NaiveDateTime {
    chrono::NaiveDate::from_ymd_opt(2023, 5, 1)
        .unwrap()
        .and_hms_opt(12, 0, 0)
        .unwrap()
}

fn user(id: i32, name: &str, email: &str) -> PublicUser {
    PublicUser {
        id,
        name: name.to_string(),
        email: email.to_string(),
        password_hash: String::new(),
        avatar: None,
        created_at: stamp(),
        last_seen: stamp(),
        deleted_at: None,
    }
}

fn is_invalid_token<T>(r: Result<T, Error>) -> bool {
    matches!(r, Err(Error::Auth(AuthError::InvalidToken)))
}

#[test]
fn issued_token_decodes_to_its_identity() {
    let token = encode_at(user(7, "alice", "a@b.com"), SECRET, NOW).unwrap();
    let claims = decode_at(&token, SECRET, NOW as i64, read_own_claims).unwrap();
    assert_eq!(claims.user.id, 7);
    assert_eq!(claims.user.name, "alice");
    assert_eq!(claims.user.email, "a@b.com");
    assert_eq!(claims.iat, NOW);
    assert_eq!(claims.exp, NOW + 30 * 24 * 60 * 60);
    assert!(claims.iat < claims.exp);
    assert_eq!(claims.exp - claims.iat, TOKEN_VALIDITY_SECS);
}

#[test]
fn issued_token_decodes_now() {
    let token = encode(user(3, "bob", "bob@example.org"), SECRET).unwrap();
    let claims = decode(&token, SECRET, read_own_claims).unwrap();
    assert_eq!(claims.user.id, 3);
    assert_eq!(claims.user.email, "bob@example.org");
    assert_eq!(claims.exp - claims.iat, TOKEN_VALIDITY_SECS);
}

#[test]
fn identity_with_escapes_and_unicode_survives() {
    let name = "Zoë \"the\" \\ tester\n\t\u{1}\u{1F600}";
    let token = encode_at(user(-42, name, "z@ë.example"), SECRET, NOW).unwrap();
    let claims = decode_at(&token, SECRET, NOW as i64, read_own_claims).unwrap();
    assert_eq!(claims.user.id, -42);
    assert_eq!(claims.user.name, name);
    assert_eq!(claims.user.email, "z@ë.example");
}

#[test]
fn extreme_identifiers_survive() {
    for id in [i32::MIN, -1, 0, 1, i32::MAX] {
        let token = encode_at(user(id, "", ""), SECRET, 0).unwrap();
        let claims = decode_at(&token, SECRET, 0, read_own_claims).unwrap();
        assert_eq!(claims.user.id, id);
        assert_eq!(claims.user.name, "");
    }
}

#[test]
fn other_secret_is_rejected() {
    let token = encode_at(user(1, "a", "a@b.com"), SECRET, NOW).unwrap();
    assert!(is_invalid_token(decode_at(&token, "another-secret", NOW as i64, read_own_claims)));
    assert!(is_invalid_token(decode_at(&token, "", NOW as i64, read_own_claims)));
}

#[test]
fn expired_token_is_rejected() {
    let token = encode_at(user(1, "a", "a@b.com"), SECRET, NOW).unwrap();
    let exp = (NOW + TOKEN_VALIDITY_SECS) as i64;
    assert!(decode_at(&token, SECRET, exp, read_own_claims).is_ok());
    assert!(is_invalid_token(decode_at(&token, SECRET, exp + 1, read_own_claims)));
    let old = encode_at(user(1, "a", "a@b.com"), SECRET, 1_000).unwrap();
    assert!(is_invalid_token(decode(&old, SECRET, read_own_claims)));
}

#[test]
fn tampered_token_is_rejected() {
    let token = encode_at(user(5, "carol", "c@d.com"), SECRET, NOW).unwrap();
    let chars: Vec<char> = token.chars().collect();
    for i in 0..chars.len() {
        for replacement in ['A', 'x', '0', '.', '-'] {
            if chars[i] == replacement {
                continue;
            }
            let mut changed = chars.clone();
            changed[i] = replacement;
            let tampered: String = changed.into_iter().collect();
            assert!(
                is_invalid_token(decode_at(&tampered, SECRET, NOW as i64, read_own_claims)),
                "position {} replaced by {}",
                i,
                replacement
            );
        }
    }
}

#[test]
fn malformed_tokens_are_rejected() {
    for t in ["", ".", "..", "a.b", "a.b.c", "abc", "Bearer x.y.z"] {
        assert!(is_invalid_token(decode_at(t, SECRET, NOW as i64, read_own_claims)));
    }
}

#[test]
fn token_has_standard_header_segment() {
    let token = encode_at(user(1, "a", "a@b.com"), SECRET, NOW).unwrap();
    let parts: Vec<&str> = token.split('.').collect();
    assert_eq!(parts.len(), 3);
    assert_eq!(parts[0], "eyJ0eXAiOiJKV1QiLCJhbGciOiJIUzI1NiJ9");
}

#[test]
fn token_is_accepted_by_jsonwebtoken() {
    let token = encode_at(user(9, "dan", "dan@x.io"), SECRET, NOW).unwrap();
    let key = jsonwebtoken::DecodingKey::from_secret(SECRET.as_bytes());
    let mut validation = jsonwebtoken::Validation::new(jsonwebtoken::Algorithm::HS256);
    validation.validate_exp = false;
    let data = jsonwebtoken::decode::<serde_json::Value>(&token, &key, &validation).unwrap();
    assert_eq!(data.claims["exp"].as_u64(), Some((NOW + TOKEN_VALIDITY_SECS) as u64));
    assert_eq!(data.claims["iat"].as_u64(), Some(NOW as u64));
    assert_eq!(data.claims["user"]["id"].as_i64(), Some(9));
    assert_eq!(data.claims["user"]["name"].as_str(), Some("dan"));
    assert_eq!(data.claims["user"]["email"].as_str(), Some("dan@x.io"));
    let wrong = jsonwebtoken::DecodingKey::from_secret(b"nope");
    assert!(jsonwebtoken::decode::<serde_json::Value>(&token, &wrong, &validation).is_err());
}

#[test]
fn claims_json_has_fixed_layout() {
    let claims = Claims {
        exp: 20,
        iat: 10,
        user: AuthToken { id: -3, name: "a\"b".to_string(), email: "e\u{7}".to_string() },
    };
    let json = claims_to_json(&claims);
    assert_eq!(
        String::from_utf8(json.clone()).unwrap(),
        "{\"exp\":20,\"iat\":10,\"user\":{\"id\":-3,\"name\":\"a\\\"b\",\"email\":\"e\\u0007\"}}"
    );
    let back = claims_from_json(&json).unwrap();
    assert_eq!(back.exp, 20);
    assert_eq!(back.iat, 10);
    assert_eq!(back.user.id, -3);
    assert_eq!(back.user.name, "a\"b");
    assert_eq!(back.user.email, "e\u{7}");
}

#[test]
fn claims_json_matches_serde_json_text() {
    let claims = Claims {
        exp: 99,
        iat: 1,
        user: AuthToken { id: 4, name: "tab\there\u{1f}".to_string(), email: "é@x".to_string() },
    };
    let json = String::from_utf8(claims_to_json(&claims)).unwrap();
    let mut user = serde_json::Map::new();
    user.insert("id".to_string(), serde_json::Value::from(4));
    user.insert("name".to_string(), serde_json::Value::from("tab\there\u{1f}"));
    user.insert("email".to_string(), serde_json::Value::from("é@x"));
    let parsed: serde_json::Value = serde_json::from_str(&json).unwrap();
    assert_eq!(parsed["user"], serde_json::Value::Object(user));
    assert_eq!(parsed["exp"].as_u64(), Some(99));
    assert_eq!(parsed["iat"].as_u64(), Some(1));
    assert!(json.contains("\\t"));
    assert!(json.contains("\\u001f"));
}

#[test]
fn claims_json_rejects_other_text() {
    for text in [
        "",
        "{}",
        "{\"exp\":1,\"iat\":2,\"user\":{\"id\":3,\"name\":\"a\",\"email\":\"b\"}} ",
        "{\"exp\":-1,\"iat\":2,\"user\":{\"id\":3,\"name\":\"a\",\"email\":\"b\"}}",
        "{\"exp\":1,\"iat\":2,\"user\":{\"id\":2147483648,\"name\":\"a\",\"email\":\"b\"}}",
        "{\"exp\":99999999999999999999,\"iat\":2,\"user\":{\"id\":3,\"name\":\"a\",\"email\":\"b\"}}",
        "{\"exp\":1,\"iat\":2,\"user\":{\"id\":3,\"name\":\"a\n\",\"email\":\"b\"}}",
    ] {
        assert!(claims_from_json(&text.as_bytes().to_vec()).is_none(), "{}", text);
    }
    let max = "{\"exp\":18446744073709551615,\"iat\":0,\"user\":{\"id\":-2147483648,\"name\":\"\\/\",\"email\":\"\\u0041\"}}";
    let c = claims_from_json(&max.as_bytes().to_vec()).unwrap();
    assert_eq!(c.exp as u64, u64::MAX);
    assert_eq!(c.user.id, i32::MIN);
    assert_eq!(c.user.name, "/");
    assert_eq!(c.user.email, "A");
}

#[test]
fn encode_claims_signs_given_claims() {
    let claims = Claims {
        exp: 500,
        iat: 100,
        user: AuthToken { id: 2, name: "n".to_string(), email: "m".to_string() },
    };
    let token = encode_claims(&claims, SECRET).unwrap();
    let back = decode_at(&token, SECRET, 500, read_own_claims).unwrap();
    assert_eq!(back.exp, 500);
    assert_eq!(back.iat, 100);
    assert!(is_invalid_token(decode_at(&token, SECRET, 501, read_own_claims)));
}

#[test]
fn request_without_authorization_is_rejected() {
    assert!(is_invalid_token(authenticate(None, SECRET, read_own_claims)));
    assert!(is_invalid_token(authenticate_at(None, SECRET, NOW as i64, read_own_claims)));
}

#[test]
fn request_with_other_scheme_is_rejected() {
    let token = encode_at(user(1, "a", "a@b.com"), SECRET, NOW).unwrap();
    for header in [
        format!("Basic {}", token),
        format!("bearer {}", token),
        format!("Bearer{}", token),
        token.clone(),
        "Bearer ".to_string(),
    ] {
        assert!(is_invalid_token(authenticate_at(Some(&header), SECRET, NOW as i64, read_own_claims)));
    }
}

#[test]
fn request_with_valid_bearer_is_accepted() {
    let token = encode_at(user(11, "eve", "eve@x.io"), SECRET, NOW).unwrap();
    let header = format!("Bearer {}", token);
    let claims = authenticate_at(Some(&header), SECRET, NOW as i64, read_own_claims).unwrap();
    assert_eq!(claims.user.id, 11);
    assert_eq!(claims.user.email, "eve@x.io");
    let fresh = encode(user(12, "f", "f@x.io"), SECRET).unwrap();
    let claims = authenticate(Some(&format!("Bearer {}", fresh)), SECRET, read_own_claims).unwrap();
    assert_eq!(claims.user.id, 12);
}

#[test]
fn auth_token_from_public_user_keeps_identity() {
    let t = AuthToken::from(user(8, "gus", "g@x.io"));
    assert_eq!(t.id, 8);
    assert_eq!(t.name, "gus");
    assert_eq!(t.email, "g@x.io");
    let c = Claims::new(user(8, "gus", "g@x.io"));
    assert_eq!(c.exp - c.iat, TOKEN_VALIDITY_SECS);
    assert_eq!(c.user.name, "gus");
}

#[test]
fn non_ascii_and_oversized_tokens_are_rejected() {
    let token = encode_at(user(1, "a", "a@b.com"), SECRET, NOW).unwrap();
    let with_umlaut = format!("{}ü", token);
    assert!(is_invalid_token(decode_at(&with_umlaut, SECRET, NOW as i64, read_own_claims)));
    let long = "A".repeat(200_000);
    assert!(is_invalid_token(decode_at(&long, SECRET, NOW as i64, read_own_claims)));
    let long_dots = format!("{}.{}.{}", long, long, long);
    assert!(is_invalid_token(decode_at(&long_dots, SECRET, NOW as i64, read_own_claims)));
    let header = format!("Bearer {}", long_dots);
    assert!(is_invalid_token(authenticate_at(Some(&header), SECRET, NOW as i64, read_own_claims)));
}

/// Reads claims the way serde does, from any JSON layout: the header must name
/// HS256 and the payload must hold the claim fields.
fn read_any_layout(header: Vec<u8>, payload: Vec<u8>) -> Option<Claims> {
    let h: serde_json::Value = serde_json::from_slice(&header).ok()?;
    if h.get("alg")?.as_str()? != "HS256" {
        return None;
    }
    let v: serde_json::Value = serde_json::from_slice(&payload).ok()?;
    let u = v.get("user")?;
    Some(Claims {
        exp: v.get("exp")?.as_u64()? as usize,
        iat: v.get("iat")?.as_u64()? as usize,
        user: AuthToken {
            id: u.get("id")?.as_i64()? as i32,
            name: u.get("name")?.as_str()?.to_string(),
            email: u.get("email")?.as_str()?.to_string(),
        },
    })
}

fn sign_token(header: &str, payload: &str, secret: &str) -> String {
    let message = format!(
        "{}.{}",
        base64::encode_config(header, base64::URL_SAFE_NO_PAD),
        base64::encode_config(payload, base64::URL_SAFE_NO_PAD)
    );
    let key = jsonwebtoken::EncodingKey::from_secret(secret.as_bytes());
    let sig = jsonwebtoken::crypto::sign(message.as_bytes(), &key, jsonwebtoken::Algorithm::HS256)
        .unwrap();
    format!("{}.{}", message, sig)
}

#[test]
fn other_json_layouts_are_read_by_the_given_reader() {
    let header = "{ \"alg\": \"HS256\" }";
    let payload = "{\"iat\": 10, \"user\": {\"email\": \"x@y.z\", \"name\": \"n\", \"id\": 3}, \"exp\": 2000000000, \"extra\": [1, 2]}";
    let token = sign_token(header, payload, SECRET);
    let claims = decode_at(&token, SECRET, NOW as i64, read_any_layout).unwrap();
    assert_eq!(claims.iat, 10);
    assert_eq!(claims.exp, 2_000_000_000);
    assert_eq!(claims.user.id, 3);
    assert_eq!(claims.user.email, "x@y.z");
    assert!(is_invalid_token(decode_at(&token, SECRET, NOW as i64, read_own_claims)));
    assert!(is_invalid_token(decode_at(&token, "other", NOW as i64, read_any_layout)));
    let expired = sign_token(header, "{\"iat\":1,\"exp\":5,\"user\":{\"id\":1,\"name\":\"a\",\"email\":\"b\"}}", SECRET);
    assert!(is_invalid_token(decode_at(&expired, SECRET, 6, read_any_layout)));
    assert!(decode_at(&expired, SECRET, 5, read_any_layout).is_ok());
    let wrong_alg = sign_token("{\"alg\":\"HS512\"}", payload, SECRET);
    assert!(is_invalid_token(decode_at(&wrong_alg, SECRET, NOW as i64, read_any_layout)));
}

#[test]
fn issued_token_opens_to_header_and_claims_json() {
    let claims = Claims {
        exp: 30,
        iat: 20,
        user: AuthToken { id: 1, name: "a".to_string(), email: "b".to_string() },
    };
    let token = encode_claims(&claims, SECRET).unwrap();
    let (h, p) = open_token(&token, SECRET).unwrap();
    assert_eq!(h, b"{\"typ\":\"JWT\",\"alg\":\"HS256\"}".to_vec());
    assert_eq!(p, claims_to_json(&claims));
    assert!(open_token(&token, "nope").is_none());
    assert!(open_token(&format!("{}.x", token), SECRET).is_none());
    let back = decode_at(&token, SECRET, 30, read_any_layout).unwrap();
    assert_eq!(back.user.name, "a");
}
