//! The process configuration: the upstream target URL and the outbound
//! timeout, resolved once from two externally supplied values before any
//! request is served.
//!
//! The surrounding application reads the two environment values and hands
//! them in as plain optional strings; resolution itself is pure. A
//! resolution failure is fatal to the process: no `Config`, no serving.

use vstd::prelude::*;

verus! {

use vstd::string::StringSliceAdditionalSpecFns;
use vstd::utf8::encode_utf8;
use crate::target::TargetUrl;
use crate::target::TargetUrlView;
use crate::target::is_digit;
use crate::target::parse_target;
use crate::target::spec_parse_target;

/// The two configuration values the relay reads.
#[derive(Clone, Copy, Debug, PartialEq, Eq, Structural)]
pub enum ConfigVar {
    /// The upstream target URL.
    Target,
    /// The outbound timeout in seconds.
    Timeout,
}

/// Why resolution failed: a value was absent, or present but not
/// parseable (the target as an absolute URL with scheme and host, the
/// timeout as a positive integer of seconds).
#[derive(Clone, Copy, Debug, PartialEq, Eq, Structural)]
pub enum ConfigError {
    Missing(ConfigVar),
    Invalid(ConfigVar),
}

/// Every byte is an ASCII digit.
pub open spec fn all_digits(s: Seq<u8>) -> bool {
    forall|i: int| 0 <= i < s.len() ==> is_digit(#[trigger] s[i])
}

/// The value of a decimal digit string.
pub open spec fn dec_val(s: Seq<u8>) -> nat
    recommends
        all_digits(s),
    decreases s.len(),
{
    if s.len() == 0 {
        0
    } else {
        (dec_val(s.take(s.len() - 1)) * 10 + (s[s.len() - 1] - 0x30)) as nat
    }
}

/// A valid timeout string: a nonempty digit string whose value is
/// positive and fits in 64 bits.
pub open spec fn valid_timeout(s: Seq<u8>) -> bool {
    &&& s.len() > 0
    &&& all_digits(s)
    &&& 1 <= dec_val(s) <= u64::MAX
}

/// A digit string's value only grows as digits are appended.
proof fn lemma_dec_val_prefix(s: Seq<u8>, k: int)
    requires
        all_digits(s),
        0 <= k <= s.len(),
    ensures
        dec_val(s.take(k)) <= dec_val(s),
    decreases s.len() - k,
{
    if k < s.len() {
        let p = s.take(s.len() - 1);
        assert forall|j: int| 0 <= j < p.len() implies is_digit(#[trigger] p[j]) by {
            assert(p[j] == s[j]);
        }
        lemma_dec_val_prefix(p, k);
        assert(p.take(k) =~= s.take(k));
        assert(is_digit(s[s.len() - 1]));
        assert(dec_val(s) == (dec_val(p) * 10 + (s[s.len() - 1] - 0x30)) as nat);
        assert(dec_val(p) * 10 + (s[s.len() - 1] - 0x30) >= dec_val(p));
    } else {
        assert(s.take(k) =~= s);
    }
}

/// The immutable configuration: resolved once, then shared read-only.
#[derive(Debug)]
pub struct Config {
    pub target: TargetUrl,
    pub timeout_secs: u64,
}

/// The mathematical value of a [`Config`].
pub struct ConfigView {
    pub target: TargetUrlView,
    pub timeout_secs: u64,
}

impl View for Config {
    type V = ConfigView;

    open spec fn view(&self) -> ConfigView {
        ConfigView { target: self.target@, timeout_secs: self.timeout_secs }
    }
}

impl ConfigView {
    /// Well-formed: a valid target and a positive timeout. Established by
    /// [`resolve`] and never mutated afterwards.
    pub open spec fn wf(self) -> bool {
        self.target.wf() && self.timeout_secs >= 1
    }
}

/// Parse the timeout value: a positive 64-bit integer of seconds.
pub fn parse_timeout(s: &str) -> (r: Option<u64>)
    ensures
        match r {
            Some(v) => valid_timeout(s.spec_bytes()) && v == dec_val(s.spec_bytes()) && v >= 1,
            None => !valid_timeout(s.spec_bytes()),
        },
{
    let b = s.as_bytes();
    if b.len() == 0 {
        return None;
    }
    let mut acc: u64 = 0;
    let mut i: usize = 0;
    proof {
        assert(b@.take(0) =~= Seq::<u8>::empty());
    }
    while i < b.len()
        invariant
            i <= b.len(),
            b@ == s.spec_bytes(),
            forall|j: int| 0 <= j < i ==> is_digit(#[trigger] b@[j]),
            acc == dec_val(b@.take(i as int)),
        decreases b.len() - i,
    {
        let c = b[i];
        if !(0x30 <= c && c <= 0x39) {
            proof {
                assert(!is_digit(b@[i as int]));
            }
            return None;
        }
        let d = (c - 0x30) as u64;
        if acc > (u64::MAX - d) / 10 {
            proof {
                let m = (u64::MAX - d) as int;
                vstd::arithmetic::div_mod::lemma_fundamental_div_mod(m, 10);
                vstd::arithmetic::div_mod::lemma_mod_bound(m, 10);
                assert(acc as int * 10 + d as int > u64::MAX as int);
                assert(b@.take(i + 1 as int).take(i as int) =~= b@.take(i as int));
                assert(b@.take(i + 1 as int)[i as int] == c);
                assert(dec_val(b@.take(i + 1 as int)) > u64::MAX);
                if all_digits(b@) {
                    lemma_dec_val_prefix(b@, i + 1 as int);
                }
            }
            return None;
        }
        acc = acc * 10 + d;
        proof {
            assert(b@.take(i + 1 as int).take(i as int) =~= b@.take(i as int));
            assert(b@.take(i + 1 as int)[i as int] == c);
        }
        i = i + 1;
    }
    proof {
        assert(b@.take(b@.len() as int) =~= b@);
    }
    if acc == 0 {
        return None;
    }
    Some(acc)
}

/// Resolve the configuration from the two externally supplied values,
/// target first. Each failure names the value it concerns; on success
/// both parsed values are exactly what the strings said.
pub fn resolve(target: Option<String>, timeout: Option<String>) -> (r: Result<Config, ConfigError>)
    ensures
        match r {
            Ok(c) => {
                &&& target matches Some(t) && spec_parse_target(encode_utf8(t@)) == Some(
                    (c.target@.scheme, c.target@.host),
                )
                &&& timeout matches Some(s) && valid_timeout(encode_utf8(s@))
                    && c.timeout_secs == dec_val(encode_utf8(s@))
                &&& c@.wf()
            },
            Err(ConfigError::Missing(ConfigVar::Target)) => target is None,
            Err(ConfigError::Invalid(ConfigVar::Target)) => target matches Some(t)
                && spec_parse_target(encode_utf8(t@)) is None,
            Err(ConfigError::Missing(ConfigVar::Timeout)) => {
                &&& target matches Some(t) && spec_parse_target(encode_utf8(t@)) is Some
                &&& timeout is None
            },
            Err(ConfigError::Invalid(ConfigVar::Timeout)) => {
                &&& target matches Some(t) && spec_parse_target(encode_utf8(t@)) is Some
                &&& timeout matches Some(s) && !valid_timeout(encode_utf8(s@))
            },
        },
{
    let t = match target {
        None => {
            return Err(ConfigError::Missing(ConfigVar::Target));
        },
        Some(t) => t,
    };
    let parsed = match parse_target(t.as_str()) {
        None => {
            return Err(ConfigError::Invalid(ConfigVar::Target));
        },
        Some(u) => u,
    };
    let s = match timeout {
        None => {
            return Err(ConfigError::Missing(ConfigVar::Timeout));
        },
        Some(s) => s,
    };
    let secs = match parse_timeout(s.as_str()) {
        None => {
            return Err(ConfigError::Invalid(ConfigVar::Timeout));
        },
        Some(v) => v,
    };
    Ok(Config { target: parsed, timeout_secs: secs })
}

} // verus!
