//! The body codec: a canonical payload sum type and its two total
//! conversions to and from raw bytes.

use vstd::prelude::*;

verus! {

use vstd::string::StrSliceExecFns;
use vstd::utf8::encode_utf8;

/// A request or response payload as the gateway represents it.
///
/// `Empty` is distinct from a zero-length `Text` or `Binary` so that an
/// absent payload never allocates, but all three of those denote the same
/// zero-length byte sequence on the wire.
#[derive(Debug, Clone)]
pub enum Body {
    /// No payload.
    Empty,
    /// A textual payload; its wire form is the UTF-8 encoding of the string.
    Text(String),
    /// An arbitrary byte payload, relayed unchanged.
    Binary(Vec<u8>),
}

/// The mathematical value of a [`Body`].
pub enum BodyView {
    Empty,
    Text(Seq<char>),
    Binary(Seq<u8>),
}

impl View for Body {
    type V = BodyView;

    open spec fn view(&self) -> BodyView {
        match self {
            Body::Empty => BodyView::Empty,
            Body::Text(t) => BodyView::Text(t@),
            Body::Binary(b) => BodyView::Binary(b@),
        }
    }
}

impl BodyView {
    /// The byte sequence a body denotes on the wire.
    pub open spec fn to_bytes(self) -> Seq<u8> {
        match self {
            BodyView::Empty => Seq::empty(),
            BodyView::Text(t) => encode_utf8(t),
            BodyView::Binary(b) => b,
        }
    }
}

/// What decoding a raw byte payload yields: zero-length input is the absent
/// payload, anything else is carried as opaque bytes. Bytes are never
/// reinterpreted as text, whatever content type the upstream declared, so
/// arbitrary payloads survive the relay byte-for-byte.
pub open spec fn body_of_bytes(bytes: Seq<u8>) -> BodyView {
    if bytes.len() == 0 {
        BodyView::Empty
    } else {
        BodyView::Binary(bytes)
    }
}

impl Body {
    /// Encode the body for the outbound wire.
    pub fn to_bytes(self) -> (r: Vec<u8>)
        ensures
            r@ == self@.to_bytes(),
    {
        match self {
            Body::Empty => Vec::new(),
            Body::Text(t) => t.as_str().as_bytes_vec(),
            Body::Binary(b) => b,
        }
    }

    /// Decode a raw byte payload received from the upstream.
    pub fn from_bytes(bytes: Vec<u8>) -> (r: Body)
        ensures
            r@ == body_of_bytes(bytes@),
    {
        if bytes.len() == 0 {
            Body::Empty
        } else {
            Body::Binary(bytes)
        }
    }

    /// True when the body denotes a zero-length payload.
    pub fn is_wire_empty(&self) -> (r: bool)
        ensures
            r == (self@.to_bytes().len() == 0),
    {
        match self {
            Body::Empty => true,
            Body::Text(t) => t.as_str().as_bytes().len() == 0,
            Body::Binary(b) => b.len() == 0,
        }
    }
}

/// Decoding a raw payload and re-encoding it gives back the same bytes,
/// the zero-length payload included.
pub proof fn lemma_codec_round_trip(bytes: Seq<u8>)
    ensures
        body_of_bytes(bytes).to_bytes() == bytes,
{
    if bytes.len() == 0 {
        assert(body_of_bytes(bytes).to_bytes() =~= bytes);
    }
}

} // verus!
