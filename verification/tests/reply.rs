use std::io;


use routerman::json::{json_reply, Json};
use routerman::method::Method;
use routerman::mime;
use routerman::request::Request;
use routerman::router::{RouteError, RouteErrorKind};
use routerman::response::{DefaultFormatter, ErrorText, IntoResponse, Response, ResponsePart};

fn header<'a>(resp: &'a Response, name: &str) -> Option<&'a str> {
    resp.headers
        .iter()
        .rev()
        .find(|(n, _)| n == name)
        .map(|(_, v)| v.as_str())
}

#[test]
fn result_reply_success_branch() {
    let value: Result<String, ErrorText> = Ok("hello".to_string());
    let (resp, fmt) = value.into_response(DefaultFormatter);
    assert!(fmt.is_some());
    assert_eq!(resp.status, 200);
    assert_eq!(resp.body, "hello");
    assert_eq!(header(&resp, "content-type"), Some("text/plain"));
}

#[test]
fn result_reply_failure_branch() {
    let failure = io::Error::new(io::ErrorKind::Other, "disk on fire");
    let value: Result<String, ErrorText> = Err(ErrorText(failure.to_string()));
    let (resp, fmt) = value.into_response(DefaultFormatter);
    assert!(fmt.is_none());
    assert_eq!(resp.status, 500);
    assert_eq!(resp.body, "disk on fire");
    assert_eq!(header(&resp, "content-type"), Some("text/plain"));
}

#[test]
fn unit_reply_is_empty_success() {
    let (resp, fmt) = ().into_response(DefaultFormatter);
    assert!(fmt.is_some());
    assert_eq!(resp.status, 200);
    assert_eq!(resp.body, "");
    assert!(resp.headers.is_empty());
}

#[test]
fn status_reply_sets_only_the_status() {
    let (resp, _) = 418u16.into_response(DefaultFormatter);
    assert_eq!(resp.status, 418);
    assert_eq!(resp.body, "");
}

#[test]
fn tuple_reply_applies_terminal_then_parts() {
    let (resp, fmt) = (404u16, "gone".to_string()).into_response(DefaultFormatter);
    assert!(fmt.is_some());
    assert_eq!(resp.status, 404);
    assert_eq!(resp.body, "gone");
    assert_eq!(header(&resp, "content-type"), Some("text/plain"));
}

#[test]
fn header_part_rejects_bad_names() {
    let headers = vec![("Bad Name".to_string(), "v".to_string())];
    let (resp, fmt) = headers.response_part(Response::new(), DefaultFormatter);
    assert!(fmt.is_none());
    assert_eq!(resp.status, 500);
    assert_eq!(resp.body, "invalid header name");
}

#[test]
fn header_part_rejects_bad_values() {
    let headers = vec![("ok".to_string(), "line\r\nbreak".to_string())];
    let (resp, fmt) = headers.response_part(Response::new(), DefaultFormatter);
    assert!(fmt.is_none());
    assert_eq!(resp.status, 500);
    assert_eq!(resp.body, "invalid header value");
}

#[test]
fn header_part_accepts_token_names_of_either_case() {
    let headers = vec![("X-Custom".to_string(), "v".to_string())];
    let (resp, fmt) = headers.response_part(Response::new(), DefaultFormatter);
    assert!(fmt.is_some());
    assert_eq!(header(&resp, "X-Custom"), Some("v"));
}

#[test]
fn header_part_records_good_pairs() {
    let headers = vec![
        ("x-one".to_string(), "1".to_string()),
        ("x-two".to_string(), "2".to_string()),
    ];
    let (resp, fmt) = headers.response_part(Response::new(), DefaultFormatter);
    assert!(fmt.is_some());
    assert_eq!(header(&resp, "x-one"), Some("1"));
    assert_eq!(header(&resp, "x-two"), Some("2"));
}

#[test]
fn json_reply_success_carries_the_serialised_body() {
    let wrapped = Json(vec![1u8, 2, 3]);
    let serialised = serde_json::to_string(&wrapped.0).map_err(|e| e.to_string());
    let resp = json_reply(serialised);
    assert_eq!(resp.status, 200);
    assert_eq!(resp.body, "[1,2,3]");
    assert_eq!(header(&resp, "content-type"), Some("application/json"));
}

#[test]
fn json_reply_failure_uses_the_default_error_shape() {
    let resp = json_reply(Err("key must be a string".to_string()));
    assert_eq!(resp.status, 500);
    assert_eq!(resp.body, "key must be a string");
    assert_eq!(header(&resp, "content-type"), Some("text/plain"));
}

#[test]
fn four_element_tuple_composes_left_to_right() {
    let headers = vec![("x-k".to_string(), "v".to_string())];
    let (resp, fmt) =
        (301u16, headers, "moved".to_string(), Response::new()).into_response(DefaultFormatter);
    assert!(fmt.is_some());
    assert_eq!(resp.status, 301);
    assert_eq!(header(&resp, "x-k"), Some("v"));
    assert_eq!(resp.body, "moved");
}

#[test]
fn route_error_replies_through_the_formatter() {
    let err = RouteError {
        request: Request::new(Method::Get, "/missing".to_string()),
        kind: RouteErrorKind::NotFound,
    };
    let (resp, fmt) = err.into_response(DefaultFormatter);
    assert!(fmt.is_none());
    assert_eq!(resp.status, 404);
}

#[test]
fn mime_names() {
    assert_eq!(mime::text_plain().as_str(), "text/plain");
    assert_eq!(mime::application_json().header(), "application/json");
}
