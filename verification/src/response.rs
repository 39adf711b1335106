//! The response translator: from the raw upstream response to the
//! gateway-facing relay response.
//!
//! It cannot fail: any upstream response, however shaped, is
//! representable.

use vstd::prelude::*;

verus! {

use crate::body::Body;
use crate::body::body_of_bytes;
use crate::request::HttpVersion;

/// The raw upstream response as the transport delivers it: the whole
/// body already read into memory.
#[derive(Debug)]
pub struct OutboundResponse {
    pub status: u16,
    pub version: HttpVersion,
    pub headers: Vec<(String, String)>,
    pub body: Vec<u8>,
}

/// The gateway-facing result of one invocation.
#[derive(Debug)]
pub struct RelayResponse {
    pub status: u16,
    pub headers: Vec<(String, String)>,
    pub body: Body,
}

/// Translate the upstream response.
///
/// The status code is copied unchanged. The header set is exactly the
/// upstream's — replaced, never merged with any defaults a response
/// builder might populate. The body is decoded by the body codec, so a
/// zero-length upstream body comes back as `Empty` and anything else as
/// the same bytes, never reinterpreted as text.
pub fn translate_response(resp: OutboundResponse) -> (r: RelayResponse)
    ensures
        r.status == resp.status,
        r.headers.deep_view() == resp.headers.deep_view(),
        r.body@ == body_of_bytes(resp.body@),
{
    RelayResponse {
        status: resp.status,
        headers: resp.headers,
        body: Body::from_bytes(resp.body),
    }
}

} // verus!
