use std::borrow::Cow;
use std::collections::BTreeMap;

use lieweb::header::{HeaderName, HeaderValue};
use lieweb::response::{html, json, with_header, with_status, IntoResponse, Json, Response};
use lieweb::status::StatusCode;

fn content_type(response: &Response) -> Option<Vec<u8>> {
    response.header(&HeaderName::content_type()).map(|value| value.as_bytes().to_vec())
}

#[test]
fn string_becomes_plain_text() {
    let response = String::from("hello, world!").into_response();
    assert_eq!(response.status().as_u16(), 200);
    assert_eq!(content_type(&response), Some(b"text/plain; charset=utf-8".to_vec()));
    assert_eq!(response.headers().len(), 1);
    assert_eq!(response.body(), b"hello, world!");
}

#[test]
fn static_str_becomes_plain_text() {
    let response = "héllo".into_response();
    assert_eq!(response.status().as_u16(), 200);
    assert_eq!(content_type(&response), Some(b"text/plain; charset=utf-8".to_vec()));
    assert_eq!(response.body(), "héllo".as_bytes());
}

#[test]
fn cow_becomes_plain_text() {
    let borrowed: Cow<'static, str> = Cow::Borrowed("abc");
    let owned: Cow<'static, str> = Cow::Owned(String::from("xyz"));
    let first = borrowed.into_response();
    let second = owned.into_response();
    assert_eq!(first.body(), b"abc");
    assert_eq!(second.body(), b"xyz");
    assert_eq!(content_type(&first), Some(b"text/plain; charset=utf-8".to_vec()));
    assert_eq!(content_type(&second), Some(b"text/plain; charset=utf-8".to_vec()));
}

#[test]
fn bytes_become_octet_stream() {
    let response = vec![0u8, 159, 146, 150].into_response();
    assert_eq!(response.status().as_u16(), 200);
    assert_eq!(content_type(&response), Some(b"application/octet-stream".to_vec()));
    assert_eq!(response.body(), &[0u8, 159, 146, 150]);
    let fixed: &'static [u8] = b"raw";
    let response = fixed.into_response();
    assert_eq!(content_type(&response), Some(b"application/octet-stream".to_vec()));
    assert_eq!(response.into_body(), b"raw".to_vec());
}

#[test]
fn bare_status_has_no_body() {
    let response = StatusCode::not_found().into_response();
    assert_eq!(response.status().as_u16(), 404);
    assert!(response.headers().is_empty());
    assert!(response.body().is_empty());
    let response = StatusCode::from_u16(204).unwrap().into_response();
    assert_eq!(response.status().as_u16(), 204);
}

#[test]
fn response_converts_to_itself() {
    let response = "same".into_response().into_response();
    assert_eq!(response.status().as_u16(), 200);
    assert_eq!(response.body(), b"same");
}

#[test]
fn html_declares_its_media_type() {
    let response = html(String::from("<p>hi</p>")).into_response();
    assert_eq!(response.status().as_u16(), 200);
    assert_eq!(content_type(&response), Some(b"text/html; charset=utf-8".to_vec()));
    assert_eq!(response.body(), b"<p>hi</p>");
    let response = html(b"<b>x</b>".to_vec()).into_response();
    assert_eq!(response.body(), b"<b>x</b>");
    let response = html("<i>y</i>").into_response();
    assert_eq!(response.body(), b"<i>y</i>");
}

#[test]
fn json_encodes_the_value() {
    let mut message: BTreeMap<String, String> = BTreeMap::new();
    message.insert(String::from("message"), String::from("hello, world!"));
    let encoded = json(&message);
    assert!(encoded.is_encoded());
    let response = encoded.into_response();
    assert_eq!(response.status().as_u16(), 200);
    assert_eq!(content_type(&response), Some(b"application/json".to_vec()));
    assert_eq!(response.body(), br#"{"message":"hello, world!"}"#);
}

#[test]
fn json_failure_becomes_the_generic_error() {
    let mut keyed: BTreeMap<Vec<u8>, u8> = BTreeMap::new();
    keyed.insert(vec![1, 2], 3);
    let attempt = serde_json::to_vec(&keyed);
    assert!(attempt.is_err());
    let response = Json::from_encoded(attempt).into_response();
    assert_eq!(response.status().as_u16(), 500);
    assert!(response.headers().is_empty());
    assert_eq!(response.body(), b"Internal Server Error");
    let encoded = json(&keyed);
    assert!(!encoded.is_encoded());
    assert_eq!(encoded.into_response().status().as_u16(), 500);
}

#[test]
fn json_from_encoded_bytes() {
    let response = Json::from_encoded(Ok(b"[1,2]".to_vec())).into_response();
    assert_eq!(response.status().as_u16(), 200);
    assert_eq!(content_type(&response), Some(b"application/json".to_vec()));
    assert_eq!(response.body(), b"[1,2]");
}

#[test]
fn with_status_overrides_the_status_only() {
    let response = with_status("made", StatusCode::from_u16(201).unwrap()).into_response();
    assert_eq!(response.status().as_u16(), 201);
    assert_eq!(content_type(&response), Some(b"text/plain; charset=utf-8".to_vec()));
    assert_eq!(response.body(), b"made");
}

#[test]
fn with_header_adds_a_header() {
    let name = HeaderName::parse("X-Request-Id").unwrap();
    let value = HeaderValue::parse("abc123").unwrap();
    let response = with_header("ok", name, value).into_response();
    assert_eq!(response.status().as_u16(), 200);
    assert_eq!(response.headers().len(), 2);
    assert_eq!(response.headers()[0].name.as_bytes(), b"content-type");
    assert_eq!(response.headers()[1].name.as_bytes(), b"x-request-id");
    assert_eq!(response.headers()[1].value.as_bytes(), b"abc123");
    assert_eq!(response.body(), b"ok");
}

#[test]
fn with_header_replaces_a_header_in_place() {
    let name = HeaderName::parse("Content-Type").unwrap();
    let value = HeaderValue::parse("text/csv").unwrap();
    let first = with_header("a,b", HeaderName::parse("server").unwrap(), HeaderValue::parse("lieweb").unwrap());
    let response = with_header(first, name, value).into_response();
    assert_eq!(response.headers().len(), 2);
    assert_eq!(response.headers()[0].name.as_bytes(), b"content-type");
    assert_eq!(response.headers()[0].value.as_bytes(), b"text/csv");
    assert_eq!(response.headers()[1].name.as_bytes(), b"server");
    assert_eq!(content_type(&response), Some(b"text/csv".to_vec()));
    assert!(response.header(&HeaderName::parse("accept").unwrap()).is_none());
}

#[test]
fn decorators_nest() {
    let inner = with_header(
        StatusCode::ok(),
        HeaderName::parse("location").unwrap(),
        HeaderValue::parse("/new").unwrap(),
    );
    let response = with_status(inner, StatusCode::from_u16(302).unwrap()).into_response();
    assert_eq!(response.status().as_u16(), 302);
    assert_eq!(response.headers().len(), 1);
    assert_eq!(response.headers()[0].value.as_bytes(), b"/new");
    assert!(response.body().is_empty());
}

#[test]
fn ok_result_converts_its_value() {
    let outcome: Result<&'static str, std::fmt::Error> = Ok("fine");
    let response = outcome.into_response();
    assert_eq!(response.status().as_u16(), 200);
    assert_eq!(response.body(), b"fine");
}

#[test]
fn err_result_hides_the_error() {
    let failure = "x".parse::<i32>().map(|id| format!("you are editing post<{}>", id));
    let text = format!("{}", failure.clone().unwrap_err());
    let response = failure.into_response();
    assert_eq!(response.status().as_u16(), 500);
    assert!(response.headers().is_empty());
    assert_eq!(response.body(), b"Internal Server Error");
    let body = String::from_utf8(response.into_body()).unwrap();
    assert!(!body.contains(&text));
}

#[test]
fn every_error_gets_the_same_response() {
    let first: Result<String, String> = Err(String::from("disk failed at /var/db"));
    let second: Result<String, String> = Err(String::from("password=hunter2"));
    let a = first.into_response();
    let b = second.into_response();
    assert_eq!(a.status().as_u16(), b.status().as_u16());
    assert_eq!(a.body(), b.body());
    assert_eq!(a.headers().len(), b.headers().len());
}
