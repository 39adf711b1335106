//! Request and response translation.

use relay::body::Body;
use relay::config::resolve;
use relay::error::TranslationError;
use relay::request::{translate_request, HttpVersion, InboundRequest};
use relay::response::{translate_response, OutboundResponse};

fn config_for(target: &str) -> relay::config::Config {
    resolve(Some(String::from(target)), Some(String::from("10"))).unwrap()
}

fn pairs(src: &[(&str, &str)]) -> Vec<(String, String)> {
    src.iter()
        .map(|(k, v)| (String::from(*k), String::from(*v)))
        .collect()
}

#[test]
fn translate_post_request() {
    let config = config_for("http://127.0.0.1:9000");
    let req = InboundRequest {
        method: String::from("POST"),
        path: String::from("/test"),
        query: Vec::new(),
        headers: pairs(&[("x-api-key", "1234")]),
        body: Body::Text(String::from("test")),
        version: HttpVersion::Http11,
    };
    let out = translate_request(req, &config).unwrap();
    assert_eq!(out.method, "POST");
    assert_eq!(out.url, b"http://127.0.0.1:9000/test".to_vec());
    assert_eq!(out.headers, pairs(&[("x-api-key", "1234")]));
    assert_eq!(out.body, b"test".to_vec());
    assert_eq!(out.version, HttpVersion::Http11);
}

#[test]
fn translate_keeps_version() {
    let config = config_for("http://h");
    let req = InboundRequest {
        method: String::from("GET"),
        path: String::from("/"),
        query: Vec::new(),
        headers: Vec::new(),
        body: Body::Empty,
        version: HttpVersion::Http2,
    };
    let out = translate_request(req, &config).unwrap();
    assert_eq!(out.version, HttpVersion::Http2);
}

#[test]
fn repeated_query_keys_forwarded() {
    let config = config_for("http://h");
    let req = InboundRequest {
        method: String::from("GET"),
        path: String::from("/echo"),
        query: pairs(&[("a", "1"), ("a", "2")]),
        headers: Vec::new(),
        body: Body::Empty,
        version: HttpVersion::Http11,
    };
    let out = translate_request(req, &config).unwrap();
    assert_eq!(out.url, b"http://h/echo?a=1&a=2".to_vec());
}

#[test]
fn query_is_percent_encoded() {
    let config = config_for("http://h");
    let req = InboundRequest {
        method: String::from("GET"),
        path: String::from("/"),
        query: pairs(&[("k y", "v&=1")]),
        headers: Vec::new(),
        body: Body::Empty,
        version: HttpVersion::Http11,
    };
    let out = translate_request(req, &config).unwrap();
    assert_eq!(out.url, b"http://h/?k%20y=v%26%3D1".to_vec());
}

#[test]
fn relative_path_is_rejected() {
    let config = config_for("http://h");
    let req = InboundRequest {
        method: String::from("GET"),
        path: String::from("no-slash"),
        query: Vec::new(),
        headers: Vec::new(),
        body: Body::Empty,
        version: HttpVersion::Http11,
    };
    let e = translate_request(req, &config).unwrap_err();
    assert_eq!(e, TranslationError::BadTargetUrl);
}

#[test]
fn headers_copied_verbatim() {
    let config = config_for("http://h");
    let headers = pairs(&[
        ("connection", "keep-alive"),
        ("x-one", "1"),
        ("x-one", "2"),
    ]);
    let req = InboundRequest {
        method: String::from("GET"),
        path: String::from("/"),
        query: Vec::new(),
        headers: headers.clone(),
        body: Body::Empty,
        version: HttpVersion::Http11,
    };
    let out = translate_request(req, &config).unwrap();
    assert_eq!(out.headers, headers);
}

#[test]
fn response_headers_replaced_not_merged() {
    let upstream = pairs(&[("content-type", "text/plain"), ("x-upstream", "yes")]);
    let resp = OutboundResponse {
        status: 202,
        version: HttpVersion::Http11,
        headers: upstream.clone(),
        body: b"success".to_vec(),
    };
    let rr = translate_response(resp);
    assert_eq!(rr.status, 202);
    assert_eq!(rr.headers, upstream);
    match rr.body {
        Body::Binary(b) => assert_eq!(b, b"success".to_vec()),
        _ => panic!("expected a binary body"),
    }
}

#[test]
fn empty_upstream_body_is_empty_not_binary() {
    let resp = OutboundResponse {
        status: 200,
        version: HttpVersion::Http11,
        headers: Vec::new(),
        body: Vec::new(),
    };
    let rr = translate_response(resp);
    assert_eq!(rr.status, 200);
    assert!(matches!(rr.body, Body::Empty));
}

#[test]
fn empty_value_pair_is_kept() {
    let config = config_for("http://h");
    let req = InboundRequest {
        method: String::from("GET"),
        path: String::from("/"),
        query: pairs(&[("a", "")]),
        headers: Vec::new(),
        body: Body::Empty,
        version: HttpVersion::Http11,
    };
    let out = translate_request(req, &config).unwrap();
    assert_eq!(out.url, b"http://h/?a=".to_vec());
}

#[test]
fn empty_path_with_query() {
    let config = config_for("http://h");
    let req = InboundRequest {
        method: String::from("GET"),
        path: String::new(),
        query: pairs(&[("a", "1")]),
        headers: Vec::new(),
        body: Body::Empty,
        version: HttpVersion::Http11,
    };
    let out = translate_request(req, &config).unwrap();
    assert_eq!(out.url, b"http://h?a=1".to_vec());
}
