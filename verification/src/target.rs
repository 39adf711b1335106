//! The upstream target: an absolute URL with scheme and host, parsed and
//! validated once at configuration time.
//!
//! Only the scheme and the host matter to the relay: the outbound URL is
//! rebuilt from them plus the inbound path and query, so any path on the
//! configured target is ignored.

use vstd::prelude::*;

verus! {

use vstd::slice::slice_to_vec;
use vstd::slice::slice_subrange;
use vstd::string::StringSliceAdditionalSpecFns;
use crate::query::find_byte;
use crate::query::find_byte_bytes;

/// ASCII letter.
pub open spec fn is_alpha(b: u8) -> bool {
    (0x41 <= b <= 0x5a) || (0x61 <= b <= 0x7a)
}

/// ASCII digit.
pub open spec fn is_digit(b: u8) -> bool {
    0x30 <= b <= 0x39
}

/// A byte allowed in a URL scheme after the first: letter, digit, `+`,
/// `-` or `.`.
pub open spec fn is_scheme_byte(b: u8) -> bool {
    is_alpha(b) || is_digit(b) || b == 0x2b || b == 0x2d || b == 0x2e
}

/// A valid scheme: nonempty, a letter first, scheme bytes throughout.
pub open spec fn valid_scheme(s: Seq<u8>) -> bool {
    &&& s.len() > 0
    &&& is_alpha(s[0])
    &&& forall|i: int| 0 <= i < s.len() ==> is_scheme_byte(#[trigger] s[i])
}

/// A byte allowed in the host part: letter, digit, `.`, `-`, `_`, `:`
/// (for a port), `[` and `]` (for an IPv6 literal).
pub open spec fn is_host_byte(b: u8) -> bool {
    is_alpha(b) || is_digit(b) || b == 0x2e || b == 0x2d || b == 0x5f || b == 0x3a || b == 0x5b
        || b == 0x5d
}

/// A valid host part: nonempty, host bytes throughout.
pub open spec fn valid_host(s: Seq<u8>) -> bool {
    &&& s.len() > 0
    &&& forall|i: int| 0 <= i < s.len() ==> is_host_byte(#[trigger] s[i])
}

/// Parse a target string: `scheme://host`, where the host runs to the
/// first `/` (anything after it is ignored) and both parts must be valid.
/// `None` when the string is no absolute URL with scheme and host.
pub open spec fn spec_parse_target(t: Seq<u8>) -> Option<(Seq<u8>, Seq<u8>)> {
    let i = find_byte(t, 0x3a);
    if i + 3 > t.len() {
        None
    } else if t[i + 1] != 0x2f || t[i + 2] != 0x2f {
        None
    } else {
        let scheme = t.subrange(0, i);
        let rest = t.skip(i + 3);
        let host = rest.subrange(0, find_byte(rest, 0x2f));
        if valid_scheme(scheme) && valid_host(host) {
            Some((scheme, host))
        } else {
            None
        }
    }
}

/// The validated upstream target: scheme and host, as raw bytes of the
/// configured URL.
#[derive(Debug, Clone)]
pub struct TargetUrl {
    pub scheme: Vec<u8>,
    pub host: Vec<u8>,
}

/// The mathematical value of a [`TargetUrl`].
pub struct TargetUrlView {
    pub scheme: Seq<u8>,
    pub host: Seq<u8>,
}

impl View for TargetUrl {
    type V = TargetUrlView;

    open spec fn view(&self) -> TargetUrlView {
        TargetUrlView { scheme: self.scheme@, host: self.host@ }
    }
}

impl TargetUrlView {
    /// Well-formed: both parts valid, as the parser guarantees.
    pub open spec fn wf(self) -> bool {
        valid_scheme(self.scheme) && valid_host(self.host)
    }

    /// The scheme that calls for TLS.
    pub open spec fn is_secure(self) -> bool {
        self.scheme == seq![0x68u8, 0x74u8, 0x74u8, 0x70u8, 0x73u8]
    }
}

impl TargetUrl {
    /// True when the target scheme is `https`, where TLS is mandatory.
    pub fn is_secure(&self) -> (r: bool)
        ensures
            r == self@.is_secure(),
    {
        let s = &self.scheme;
        let r = s.len() == 5 && s[0] == 0x68 && s[1] == 0x74 && s[2] == 0x74 && s[3] == 0x70
            && s[4] == 0x73;
        proof {
            if r {
                assert(self@.scheme =~= seq![0x68u8, 0x74u8, 0x74u8, 0x70u8, 0x73u8]);
            }
            if self@.scheme == seq![0x68u8, 0x74u8, 0x74u8, 0x70u8, 0x73u8] {
                assert(s@.len() == 5);
                assert(s@[0] == 0x68u8 && s@[1] == 0x74u8 && s@[2] == 0x74u8 && s@[3] == 0x70u8
                    && s@[4] == 0x73u8);
            }
        }
        r
    }
}

/// Check that every byte of `s` is a scheme byte and the first a letter.
fn check_scheme(s: &[u8]) -> (r: bool)
    ensures
        r == valid_scheme(s@),
{
    if s.len() == 0 {
        return false;
    }
    let b0 = s[0];
    if !((0x41 <= b0 && b0 <= 0x5a) || (0x61 <= b0 && b0 <= 0x7a)) {
        return false;
    }
    let mut i: usize = 0;
    while i < s.len()
        invariant
            i <= s.len(),
            s@.len() > 0,
            is_alpha(s@[0]),
            forall|j: int| 0 <= j < i ==> is_scheme_byte(#[trigger] s@[j]),
        decreases s.len() - i,
    {
        let b = s[i];
        if !((0x41 <= b && b <= 0x5a) || (0x61 <= b && b <= 0x7a) || (0x30 <= b && b <= 0x39)
            || b == 0x2b || b == 0x2d || b == 0x2e) {
            return false;
        }
        i = i + 1;
    }
    true
}

/// Check that `s` is a nonempty run of host bytes.
fn check_host(s: &[u8]) -> (r: bool)
    ensures
        r == valid_host(s@),
{
    if s.len() == 0 {
        return false;
    }
    let mut i: usize = 0;
    while i < s.len()
        invariant
            i <= s.len(),
            s@.len() > 0,
            forall|j: int| 0 <= j < i ==> is_host_byte(#[trigger] s@[j]),
        decreases s.len() - i,
    {
        let b = s[i];
        if !((0x41 <= b && b <= 0x5a) || (0x61 <= b && b <= 0x7a) || (0x30 <= b && b <= 0x39)
            || b == 0x2e || b == 0x2d || b == 0x5f || b == 0x3a || b == 0x5b || b == 0x5d) {
            return false;
        }
        i = i + 1;
    }
    true
}

/// Parse and validate the configured target URL.
pub fn parse_target(t: &str) -> (r: Option<TargetUrl>)
    ensures
        match r {
            Some(u) => spec_parse_target(t.spec_bytes()) == Some((u@.scheme, u@.host)) && u@.wf(),
            None => spec_parse_target(t.spec_bytes()) is None,
        },
{
    let b = t.as_bytes();
    let i = find_byte_bytes(b, 0x3a);
    if b.len() < 3 || i > b.len() - 3 {
        return None;
    }
    if *vstd::slice::slice_index_get(b, i + 1) != 0x2f || *vstd::slice::slice_index_get(
        b,
        i + 2,
    ) != 0x2f {
        return None;
    }
    let scheme = slice_subrange(b, 0, i);
    let rest = slice_subrange(b, i + 3, b.len());
    let j = find_byte_bytes(rest, 0x2f);
    proof {
        crate::query::lemma_find_byte(rest@, 0x2f);
    }
    let host = slice_subrange(rest, 0, j);
    if !check_scheme(scheme) {
        return None;
    }
    if !check_host(host) {
        return None;
    }
    Some(TargetUrl { scheme: slice_to_vec(scheme), host: slice_to_vec(host) })
}

} // verus!
