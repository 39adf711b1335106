//! A verified HTTP relay core.
//!
//! The library holds the request/response translation pipeline of a relay
//! that forwards an inbound gateway request to a single configured upstream
//! target: the body codec, the configuration resolver, the request and
//! response translators, and the per-invocation orchestration rules.
//! The network call itself, and everything else that touches the outside
//! world, lives in the surrounding application.

pub mod body;
pub mod config;
pub mod context;
pub mod error;
pub mod percent;
pub mod query;
pub mod relay;
pub mod request;
pub mod response;
pub mod target;
