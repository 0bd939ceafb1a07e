use blog_core::api::{taken_by_other, ApiResponse, Pagination};
use blog_core::errors::{AuthError, Error};
use blog_core::models::role::Permission;
use blog_core::settings::{Auth, Database, Logger, Server, Settings};
use blog_core::utils::json::{read_integer, read_natural, read_string, write_escaped, write_integer, write_natural};

#[test]
fn error_codes() {
    assert_eq!(Error::Database("x".to_string()).code(), 1001);
    assert_eq!(Error::Auth(AuthError::InvalidToken).code(), 2001);
    assert_eq!(Error::NotFound("user".to_string()).code(), 2002);
    assert_eq!(Error::ObjectConflict("x".to_string()).code(), 2004);
    assert_eq!(Error::HashPassword.code(), 2005);
}

#[test]
fn error_messages() {
    assert_eq!(Error::NotFound("user".to_string()).message(), "user not found");
    assert_eq!(Error::ObjectConflict("taken".to_string()).message(), "taken");
    assert_eq!(Error::Database("down".to_string()).message(), "down");
    assert_eq!(Error::HashPassword.message(), "hash password");
    assert_eq!(
        Error::Auth(AuthError::WrongCredentials).message(),
        "Wrong authentication credentials"
    );
    assert_eq!(AuthError::MissingCredentials.message(), "Missing authentication credentials");
    assert_eq!(AuthError::TokenCreation.message(), "Failed to create authentication token");
    assert_eq!(AuthError::InvalidToken.message(), "Invalid authentication token");
    assert!(matches!(Error::from(AuthError::InvalidToken), Error::Auth(AuthError::InvalidToken)));
}

#[test]
fn permission_from_bits() {
    assert_eq!(Permission::from(1), Permission::Follow);
    assert_eq!(Permission::from(2), Permission::Comment);
    assert_eq!(Permission::from(4), Permission::Write);
    assert_eq!(Permission::from(8), Permission::Moderate);
    assert_eq!(Permission::from(16), Permission::Admin);
    assert_eq!(Permission::from(3), Permission::Follow);
    assert_eq!(Permission::from(-16), Permission::Follow);
}

#[test]
fn pagination_defaults() {
    let p = Pagination { page: None, page_size: None };
    assert_eq!(p.index(), 0);
    assert_eq!(p.limit(), 10);
    assert_eq!(p.offset(), 0);
    let r = p.respond(57, vec![1, 2, 3]);
    assert_eq!(r.page, 1);
    assert_eq!(r.page_size, 10);
    assert_eq!(r.total, 57);
    assert_eq!(r.list, vec![1, 2, 3]);
}

#[test]
fn pagination_clamps_and_multiplies() {
    let p = Pagination { page: Some(3), page_size: Some(25) };
    assert_eq!(p.index(), 2);
    assert_eq!(p.limit(), 25);
    assert_eq!(p.offset(), 50);
    let p = Pagination { page: Some(0), page_size: Some(0) };
    assert_eq!(p.index(), 0);
    assert_eq!(p.limit(), 1);
    let p = Pagination { page: Some(i32::MIN), page_size: Some(-5) };
    assert_eq!(p.index(), 0);
    assert_eq!(p.limit(), 1);
    let p = Pagination { page: Some(i32::MAX), page_size: Some(i32::MAX) };
    assert_eq!(p.offset(), (i32::MAX as i64 - 1) * i32::MAX as i64);
    let r: blog_core::api::PaginationResponse<u8> = p.respond(5, Vec::new());
    assert_eq!(r.page, i32::MAX);
}

#[test]
fn conflict_only_with_another_record() {
    assert!(!taken_by_other(None, 4));
    assert!(!taken_by_other(Some(4), 4));
    assert!(taken_by_other(Some(5), 4));
}

#[test]
fn api_response_envelope() {
    let r = ApiResponse::new(5u8);
    assert_eq!(r.code, 0);
    assert_eq!(r.message, "success");
    assert_eq!(r.data, Some(5));
    let d: ApiResponse<u8> = ApiResponse::default();
    assert_eq!(d.code, 0);
    assert_eq!(d.message, "success");
    assert!(d.data.is_none());
}

#[test]
fn settings_port_override() {
    let s = Settings {
        debug: false,
        server: Server { port: 8000 },
        database: Database { url: "mysql://x".to_string() },
        logger: Logger { level: "info".to_string() },
        auth: Auth { secret: "s".to_string() },
    };
    let s = s.with_port(Some(9000));
    assert_eq!(s.server.port, 9000);
    let s = s.with_port(None);
    assert_eq!(s.server.port, 9000);
    assert_eq!(s.database.url, "mysql://x");
}

#[test]
fn decimal_text_round_trips() {
    for n in [0u64, 7, 10, 12345, u64::MAX] {
        let mut out = b"x".to_vec();
        write_natural(&mut out, n);
        assert_eq!(String::from_utf8(out[1..].to_vec()).unwrap(), n.to_string());
        assert_eq!(read_natural(&out, 1), Some((n, out.len())));
    }
    for i in [i32::MIN, -1, 0, 99, i32::MAX] {
        let mut out = Vec::new();
        write_integer(&mut out, i);
        assert_eq!(String::from_utf8(out.clone()).unwrap(), i.to_string());
        assert_eq!(read_integer(&out, 0), Some((i, out.len())));
    }
    assert_eq!(read_natural(&b"18446744073709551616".to_vec(), 0), None);
    assert_eq!(read_natural(&b"x".to_vec(), 0), None);
    assert_eq!(read_integer(&b"-2147483649".to_vec(), 0), None);
    assert_eq!(read_natural(&b"0042,".to_vec(), 0), Some((42, 4)));
}

#[test]
fn escaped_text_round_trips() {
    let raw = "q\"b\\s/\u{8}\u{c}\n\r\t\u{0}é".as_bytes().to_vec();
    let mut out = Vec::new();
    write_escaped(&mut out, &raw);
    assert_eq!(
        String::from_utf8(out.clone()).unwrap(),
        "q\\\"b\\\\s/\\b\\f\\n\\r\\t\\u0000é"
    );
    out.push(b'"');
    out.extend_from_slice(b"rest");
    let (back, end) = read_string(&out, 0).unwrap();
    assert_eq!(back, raw);
    assert_eq!(&out[end..], b"rest");
    assert_eq!(read_string(&b"abc".to_vec(), 0), None);
    assert_eq!(read_string(&b"\\x\"".to_vec(), 0), None);
}
