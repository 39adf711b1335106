//! The inbound request's gateway context: a request identifier and a
//! source address, carried for observability only. It has no effect on
//! forwarding.

use vstd::prelude::*;

verus! {

/// The context a gateway attaches to an inbound request. The
/// load-balancer flavour carries neither field.
pub enum RequestContext {
    ApiGatewayV2 { request_id: String, source_ip: String },
    ApiGateway { request_id: String, source_ip: String },
    Alb,
}

/// Extract observability information from a request context.
pub trait GetContextInfo {
    /// The request identifier [`request_id`](Self::request_id) returns.
    spec fn spec_request_id(&self) -> Seq<char>;

    /// The source address [`source_ip`](Self::source_ip) returns.
    spec fn spec_source_ip(&self) -> Seq<char>;

    /// Get the request ID.
    fn request_id(&self) -> (r: &str)
        ensures
            r@ == self.spec_request_id(),
    ;

    /// Get the source IP address.
    fn source_ip(&self) -> (r: &str)
        ensures
            r@ == self.spec_source_ip(),
    ;
}

impl GetContextInfo for RequestContext {
    open spec fn spec_request_id(&self) -> Seq<char> {
        match self {
            RequestContext::ApiGatewayV2 { request_id, .. } => request_id@,
            RequestContext::ApiGateway { request_id, .. } => request_id@,
            RequestContext::Alb => Seq::empty(),
        }
    }

    open spec fn spec_source_ip(&self) -> Seq<char> {
        match self {
            RequestContext::ApiGatewayV2 { source_ip, .. } => source_ip@,
            RequestContext::ApiGateway { source_ip, .. } => source_ip@,
            RequestContext::Alb => Seq::empty(),
        }
    }

    fn request_id(&self) -> (r: &str) {
        match self {
            RequestContext::ApiGatewayV2 { request_id, .. } => request_id.as_str(),
            RequestContext::ApiGateway { request_id, .. } => request_id.as_str(),
            RequestContext::Alb => {
                let r = "";
                proof {
                    reveal_strlit("");
                    assert(r@ =~= Seq::<char>::empty());
                }
                r
            },
        }
    }

    fn source_ip(&self) -> (r: &str) {
        match self {
            RequestContext::ApiGatewayV2 { source_ip, .. } => source_ip.as_str(),
            RequestContext::ApiGateway { source_ip, .. } => source_ip.as_str(),
            RequestContext::Alb => {
                let r = "";
                proof {
                    reveal_strlit("");
                    assert(r@ =~= Seq::<char>::empty());
                }
                r
            },
        }
    }
}

} // verus!
