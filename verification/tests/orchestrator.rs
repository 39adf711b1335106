//! The per-invocation orchestration: outcome handling, error mapping,
//! and the value-level behaviour of the two original payload scenarios.

use relay::body::Body;
use relay::config::resolve;
use relay::context::{GetContextInfo, RequestContext};
use relay::error::{RelayError, TransportError, TranslationError, status_for_error};
use relay::relay::{conclude, error_response, http2_prior_knowledge, prepare};
use relay::request::{HttpVersion, InboundRequest};
use relay::response::OutboundResponse;

fn inbound(version: HttpVersion) -> InboundRequest {
    InboundRequest {
        method: String::from("POST"),
        path: String::from("/post"),
        query: Vec::new(),
        headers: Vec::new(),
        body: Body::Text(String::from("test")),
        version,
    }
}

fn upstream_success() -> OutboundResponse {
    OutboundResponse {
        status: 200,
        version: HttpVersion::Http11,
        headers: Vec::new(),
        body: b"success".to_vec(),
    }
}

// HTTP/1.1 POST payload.
#[test]
fn test_post_http11() {
    let config = resolve(
        Some(String::from("http://127.0.0.1:8080")),
        Some(String::from("3")),
    )
    .unwrap();
    let out = prepare(inbound(HttpVersion::Http11), &config).unwrap();
    assert_eq!(out.method, "POST");
    assert!(!http2_prior_knowledge(&out.version));

    let response = conclude(Ok(upstream_success())).unwrap();
    assert_eq!(response.status, 200);
    match response.body {
        Body::Binary(b) => assert_eq!(b, b"success".to_vec()),
        _ => panic!("expected a binary body"),
    }
}

// HTTP/2 POST payload.
#[test]
fn test_post_http2() {
    let config = resolve(
        Some(String::from("http://127.0.0.1:8080")),
        Some(String::from("3")),
    )
    .unwrap();
    let out = prepare(inbound(HttpVersion::Http2), &config).unwrap();
    assert_eq!(out.method, "POST");
    assert!(http2_prior_knowledge(&out.version));

    let response = conclude(Ok(upstream_success())).unwrap();
    assert_eq!(response.status, 200);
    match response.body {
        Body::Binary(b) => assert_eq!(b, b"success".to_vec()),
        _ => panic!("expected a binary body"),
    }
}

#[test]
fn timeout_surfaces_as_504() {
    let e = conclude(Err(TransportError::Timeout)).unwrap_err();
    assert!(matches!(e, RelayError::Transport(TransportError::Timeout)));
    assert_eq!(status_for_error(&e), 504);
    let r = error_response(&e);
    assert_eq!(r.status, 504);
    assert!(r.headers.is_empty());
    assert!(matches!(r.body, Body::Empty));
}

#[test]
fn unreachable_surfaces_as_502() {
    let e = conclude(Err(TransportError::Unreachable(String::from(
        "connection refused",
    ))))
    .unwrap_err();
    assert_eq!(status_for_error(&e), 502);
}

#[test]
fn translation_failure_surfaces_as_500() {
    let e = RelayError::Translation(TranslationError::BadTargetUrl);
    assert_eq!(status_for_error(&e), 500);
    let e = RelayError::Internal(String::from("anything else"));
    assert_eq!(status_for_error(&e), 500);
}

#[test]
fn context_info_per_variant() {
    let v2 = RequestContext::ApiGatewayV2 {
        request_id: String::from("id-2"),
        source_ip: String::from("10.0.0.2"),
    };
    assert_eq!(v2.request_id(), "id-2");
    assert_eq!(v2.source_ip(), "10.0.0.2");
    let v1 = RequestContext::ApiGateway {
        request_id: String::from("id-1"),
        source_ip: String::from("10.0.0.1"),
    };
    assert_eq!(v1.request_id(), "id-1");
    assert_eq!(v1.source_ip(), "10.0.0.1");
    let alb = RequestContext::Alb;
    assert_eq!(alb.request_id(), "");
    assert_eq!(alb.source_ip(), "");
}
