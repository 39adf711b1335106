//! The per-invocation orchestrator.
//!
//! One invocation is: translate the inbound request ([`prepare`]), let
//! the surrounding application perform the single outbound call — the
//! invocation's only suspension point, bounded by the configured
//! timeout — and translate whatever came back ([`conclude`]). Every
//! failure is returned as a value; nothing is retried, and no fallback
//! response is synthesized beyond the error status mapping of
//! [`error_response`].

use vstd::prelude::*;

verus! {

use crate::body::Body;
use crate::body::body_of_bytes;
use crate::config::Config;
use crate::error::RelayError;
use crate::error::TransportError;
use crate::error::spec_error_status;
use crate::error::status_for_error;
use crate::query::pairs_bytes;
use crate::request::HttpVersion;
use crate::request::InboundRequest;
use crate::request::OutboundRequest;
use crate::request::path_ok;
use crate::request::spec_url_bytes;
use crate::request::translate_request;
use crate::response::OutboundResponse;
use crate::response::RelayResponse;
use crate::response::translate_response;
use vstd::utf8::encode_utf8;

/// Whether the outbound connection must use HTTP/2 with prior
/// knowledge: exactly when the inbound request arrived over HTTP/2.
/// Otherwise the transport negotiates the version as usual.
pub fn http2_prior_knowledge(v: &HttpVersion) -> (r: bool)
    ensures
        r == (*v is Http2),
{
    v.is_http2()
}

/// The first half of one invocation: build the outbound request from
/// the inbound one and the resolved configuration. A configuration must
/// exist before any request is served; there is no way around this
/// argument.
pub fn prepare(req: InboundRequest, config: &Config) -> (r: Result<OutboundRequest, RelayError>)
    ensures
        match r {
            Ok(o) => {
                &&& path_ok(encode_utf8(req.path@))
                &&& o.method@ == req.method@
                &&& o.headers.deep_view() == req.headers.deep_view()
                &&& o.body@ == req.body@.to_bytes()
                &&& o.version == req.version
                &&& o.url@ == spec_url_bytes(
                    config.target@,
                    encode_utf8(req.path@),
                    pairs_bytes(req.query.deep_view()),
                )
            },
            Err(e) => e matches RelayError::Translation(_) && !path_ok(encode_utf8(req.path@)),
        },
{
    match translate_request(req, config) {
        Ok(o) => Ok(o),
        Err(e) => Err(RelayError::Translation(e)),
    }
}

/// The second half of one invocation: turn the outcome of the single
/// outbound call into the gateway-facing result. A response translates
/// as [`translate_response`] says; a transport failure is returned as
/// the corresponding error, unchanged and unretried — in particular a
/// timeout surfaces as `Transport(Timeout)` and nothing else.
pub fn conclude(outcome: Result<OutboundResponse, TransportError>) -> (r: Result<
    RelayResponse,
    RelayError,
>)
    ensures
        match outcome {
            Ok(resp) => r matches Ok(rr) && rr.status == resp.status
                && rr.headers.deep_view() == resp.headers.deep_view()
                && rr.body@ == body_of_bytes(resp.body@),
            Err(te) => r == Err::<RelayResponse, RelayError>(RelayError::Transport(te)),
        },
{
    match outcome {
        Ok(resp) => Ok(translate_response(resp)),
        Err(te) => Err(RelayError::Transport(te)),
    }
}

/// The response surfacing a failed invocation: the error's status
/// class, no headers, no body. The caller always receives a response.
pub fn error_response(e: &RelayError) -> (r: RelayResponse)
    ensures
        r.status == spec_error_status(*e),
        r.headers@.len() == 0,
        r.body@ == body_of_bytes(Seq::<u8>::empty()),
{
    RelayResponse { status: status_for_error(e), headers: Vec::new(), body: Body::Empty }
}

} // verus!
