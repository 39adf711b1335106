//! The request translator: from the inbound gateway request to the
//! outbound wire request.
//!
//! The outbound URL takes the configured target's scheme and host, the
//! inbound path unchanged, and the inbound query pairs re-encoded; the
//! method, the headers and the protocol version are carried over
//! verbatim, and the body is encoded by the body codec.

use vstd::prelude::*;

verus! {

use vstd::string::StringSliceAdditionalSpecFns;
use vstd::utf8::encode_utf8;
use crate::body::Body;
use crate::config::Config;
use crate::error::TranslationError;
use crate::query::build_query;
use crate::query::pairs_bytes;
use crate::query::spec_build_query;
use crate::target::TargetUrl;
use crate::target::TargetUrlView;

/// The protocol version of the inbound request, mirrored onto the
/// outbound connection.
#[derive(Clone, Copy, Debug, PartialEq, Eq, Structural)]
pub enum HttpVersion {
    Http11,
    Http2,
}

impl HttpVersion {
    /// True for HTTP/2.
    pub fn is_http2(&self) -> (r: bool)
        ensures
            r == (*self is Http2),
    {
        matches!(self, HttpVersion::Http2)
    }
}

/// The inbound request as the gateway delivers it: the query pairs
/// already decoded and stripped from the path, the headers a multimap
/// in their given order.
#[derive(Debug)]
pub struct InboundRequest {
    pub method: String,
    pub path: String,
    pub query: Vec<(String, String)>,
    pub headers: Vec<(String, String)>,
    pub body: Body,
    pub version: HttpVersion,
}

/// The outbound wire request the transport sends.
#[derive(Debug)]
pub struct OutboundRequest {
    pub method: String,
    pub url: Vec<u8>,
    pub headers: Vec<(String, String)>,
    pub body: Vec<u8>,
    pub version: HttpVersion,
}

/// A byte acceptable in the path of the outbound URL: printable ASCII
/// other than space, `?` and `#`, or any non-ASCII byte.
pub open spec fn is_path_byte(b: u8) -> bool {
    (0x21 <= b <= 0x7e && b != 0x3f && b != 0x23) || b >= 0x80
}

/// An inbound path the target can absorb: empty, or absolute and free
/// of query, fragment and whitespace bytes.
pub open spec fn path_ok(p: Seq<u8>) -> bool {
    p.len() == 0 || (p[0] == 0x2f && forall|i: int| 0 <= i < p.len() ==> is_path_byte(
        #[trigger] p[i],
    ))
}

/// Check [`path_ok`] on the inbound path.
fn check_path(p: &str) -> (r: bool)
    ensures
        r == path_ok(p.spec_bytes()),
{
    let b = p.as_bytes();
    if b.len() == 0 {
        return true;
    }
    if b[0] != 0x2f {
        return false;
    }
    let mut i: usize = 0;
    while i < b.len()
        invariant
            i <= b.len(),
            b@ == p.spec_bytes(),
            b@.len() > 0,
            b@[0] == 0x2f,
            forall|j: int| 0 <= j < i ==> is_path_byte(#[trigger] b@[j]),
        decreases b.len() - i,
    {
        let c = b[i];
        if !((0x21 <= c && c <= 0x7e && c != 0x3f && c != 0x23) || c >= 0x80) {
            proof {
                assert(!is_path_byte(b@[i as int]));
            }
            return false;
        }
        i = i + 1;
    }
    true
}

/// The bytes of the outbound URL: the target's scheme and host, the
/// inbound path, and — when there are query pairs — `?` and the
/// re-encoded query string.
pub open spec fn spec_url_bytes(
    target: TargetUrlView,
    path: Seq<u8>,
    pairs: Seq<(Seq<u8>, Seq<u8>)>,
) -> Seq<u8> {
    let base = target.scheme + seq![0x3au8, 0x2fu8, 0x2fu8] + target.host + path;
    if pairs.len() == 0 {
        base
    } else {
        base + seq![0x3fu8] + spec_build_query(pairs)
    }
}

/// Append a byte slice to a byte vector.
fn append_bytes(dst: &mut Vec<u8>, src: &[u8])
    ensures
        final(dst)@ == old(dst)@ + src@,
{
    let ghost orig = dst@;
    let mut i: usize = 0;
    while i < src.len()
        invariant
            i <= src.len(),
            dst@ == orig + src@.subrange(0, i as int),
        decreases src.len() - i,
    {
        dst.push(src[i]);
        proof {
            assert(orig + src@.subrange(0, i as int) + seq![src@[i as int]] =~= orig
                + src@.subrange(0, i + 1 as int));
        }
        i = i + 1;
    }
    proof {
        assert(src@.subrange(0, src@.len() as int) =~= src@);
    }
}

/// Build the outbound URL from the target, the inbound path and the
/// inbound query pairs.
pub fn build_url(target: &TargetUrl, path: &str, query: &Vec<(String, String)>) -> (r: Vec<u8>)
    ensures
        r@ == spec_url_bytes(target@, path.spec_bytes(), pairs_bytes(query.deep_view())),
{
    let mut r: Vec<u8> = Vec::new();
    append_bytes(&mut r, target.scheme.as_slice());
    r.push(0x3a);
    r.push(0x2f);
    r.push(0x2f);
    append_bytes(&mut r, target.host.as_slice());
    append_bytes(&mut r, path.as_bytes());
    proof {
        assert(r@ =~= target@.scheme + seq![0x3au8, 0x2fu8, 0x2fu8] + target@.host
            + path.spec_bytes());
    }
    if query.len() > 0 {
        r.push(0x3f);
        let mut q = build_query(query);
        r.append(&mut q);
        proof {
            assert(pairs_bytes(query.deep_view()).len() == query@.len());
            assert(r@ =~= (target@.scheme + seq![0x3au8, 0x2fu8, 0x2fu8] + target@.host
                + path.spec_bytes()) + seq![0x3fu8] + spec_build_query(
                pairs_bytes(query.deep_view()),
            ));
        }
    } else {
        proof {
            assert(pairs_bytes(query.deep_view()).len() == 0);
        }
    }
    r
}

/// Translate the inbound request into the outbound wire request.
///
/// Succeeds exactly when the inbound path can be absorbed into the
/// target URL; the one failure is [`TranslationError::BadTargetUrl`].
/// On success the method, headers, version and body are those of the
/// inbound request, and the URL is built as [`spec_url_bytes`] says.
pub fn translate_request(req: InboundRequest, config: &Config) -> (r: Result<
    OutboundRequest,
    TranslationError,
>)
    ensures
        match r {
            Ok(o) => {
                &&& path_ok(encode_utf8(req.path@))
                &&& o.method@ == req.method@
                &&& o.headers.deep_view() == req.headers.deep_view()
                &&& o.body@ == req.body@.to_bytes()
                &&& o.version == req.version
                &&& o.url@ == spec_url_bytes(
                    config.target@,
                    encode_utf8(req.path@),
                    pairs_bytes(req.query.deep_view()),
                )
            },
            Err(e) => e == TranslationError::BadTargetUrl && !path_ok(encode_utf8(req.path@)),
        },
{
    if !check_path(req.path.as_str()) {
        return Err(TranslationError::BadTargetUrl);
    }
    let url = build_url(&config.target, req.path.as_str(), &req.query);
    Ok(
        OutboundRequest {
            method: req.method,
            url,
            headers: req.headers,
            body: req.body.to_bytes(),
            version: req.version,
        },
    )
}

} // verus!
