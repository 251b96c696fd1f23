use lieweb::header::{HeaderName, HeaderValue};
use lieweb::octets::{owned_bytes, same_bytes};
use lieweb::status::StatusCode;

#[test]
fn header_name_is_made_canonical() {
    let name = HeaderName::parse("Content-Type").unwrap();
    assert_eq!(name.as_bytes(), b"content-type");
    assert!(name.same_as(&HeaderName::content_type()));
    assert!(name.same_as(&name.duplicate()));
    let custom = HeaderName::parse("X-Trace-ID").unwrap();
    assert_eq!(custom.as_bytes(), b"x-trace-id");
    assert!(!custom.same_as(&name));
}

#[test]
fn header_name_agrees_with_http() {
    for text in ["Accept", "x-y_z", "bad name", "", "a:b", "UPPER", "tab\t"] {
        let ours = HeaderName::parse(text).map(|name| name.as_bytes().to_vec());
        let theirs = http::header::HeaderName::from_bytes(text.as_bytes())
            .ok()
            .map(|name| name.as_str().as_bytes().to_vec());
        assert_eq!(ours, theirs);
    }
}

#[test]
fn bad_header_names_are_refused() {
    assert!(HeaderName::parse("").is_none());
    assert!(HeaderName::parse("bad name").is_none());
    assert!(HeaderName::parse("a:b").is_none());
}

#[test]
fn content_type_name_is_exact() {
    assert_eq!(HeaderName::content_type().as_bytes(), b"content-type");
}

#[test]
fn header_value_is_kept_as_given() {
    let value = HeaderValue::parse("Some Value; q=0.5").unwrap();
    assert_eq!(value.as_bytes(), b"Some Value; q=0.5");
    assert_eq!(value.duplicate().as_bytes(), b"Some Value; q=0.5");
    assert_eq!(HeaderValue::parse("tab\there").unwrap().as_bytes(), b"tab\there");
    assert_eq!(HeaderValue::parse("").unwrap().as_bytes(), b"");
    assert_eq!(HeaderValue::parse("é").unwrap().as_bytes(), "é".as_bytes());
}

#[test]
fn bad_header_values_are_refused() {
    assert!(HeaderValue::parse("line\nbreak").is_none());
    assert!(HeaderValue::parse("carriage\rreturn").is_none());
    assert!(HeaderValue::parse("del\u{7f}").is_none());
    assert!(HeaderValue::parse("nul\u{0}").is_none());
    assert!(HeaderValue::parse("unit\u{1f}").is_none());
}

#[test]
fn media_types_are_exact() {
    assert_eq!(HeaderValue::text_plain_utf8().as_bytes(), b"text/plain; charset=utf-8");
    assert_eq!(HeaderValue::text_html_utf8().as_bytes(), b"text/html; charset=utf-8");
    assert_eq!(HeaderValue::application_json().as_bytes(), b"application/json");
    assert_eq!(HeaderValue::application_octet_stream().as_bytes(), b"application/octet-stream");
}

#[test]
fn status_numbers_have_three_digits() {
    assert!(StatusCode::from_u16(0).is_none());
    assert!(StatusCode::from_u16(99).is_none());
    assert_eq!(StatusCode::from_u16(100).unwrap().as_u16(), 100);
    assert_eq!(StatusCode::from_u16(418).unwrap().as_u16(), 418);
    assert_eq!(StatusCode::from_u16(999).unwrap().as_u16(), 999);
    assert!(StatusCode::from_u16(1000).is_none());
    assert!(StatusCode::from_u16(u16::MAX).is_none());
}

#[test]
fn named_statuses_are_exact() {
    assert_eq!(StatusCode::ok().as_u16(), 200);
    assert_eq!(StatusCode::not_found().as_u16(), 404);
    assert_eq!(StatusCode::internal_server_error().as_u16(), 500);
}

#[test]
fn bytes_are_compared_and_copied() {
    assert!(same_bytes(b"abc", b"abc"));
    assert!(!same_bytes(b"abc", b"abd"));
    assert!(!same_bytes(b"abc", b"ab"));
    assert!(same_bytes(b"", b""));
    assert_eq!(owned_bytes(b"xyz"), b"xyz".to_vec());
}
