//! Configuration resolution: both values required, both validated.

use relay::config::{resolve, ConfigError, ConfigVar};

#[test]
fn resolve_ok() {
    let c = resolve(
        Some(String::from("http://127.0.0.1:8080")),
        Some(String::from("10")),
    )
    .unwrap();
    assert_eq!(c.target.scheme, b"http".to_vec());
    assert_eq!(c.target.host, b"127.0.0.1:8080".to_vec());
    assert_eq!(c.timeout_secs, 10);
    assert!(!c.target.is_secure());
}

#[test]
fn resolve_https_is_secure() {
    let c = resolve(
        Some(String::from("https://example.com")),
        Some(String::from("1")),
    )
    .unwrap();
    assert!(c.target.is_secure());
}

#[test]
fn missing_target_serves_nothing() {
    let r = resolve(None, Some(String::from("10")));
    assert_eq!(r.unwrap_err(), ConfigError::Missing(ConfigVar::Target));
}

#[test]
fn missing_timeout_serves_nothing() {
    let r = resolve(Some(String::from("http://h")), None);
    assert_eq!(r.unwrap_err(), ConfigError::Missing(ConfigVar::Timeout));
}

#[test]
fn target_without_scheme_is_invalid() {
    let r = resolve(Some(String::from("127.0.0.1")), Some(String::from("10")));
    assert_eq!(r.unwrap_err(), ConfigError::Invalid(ConfigVar::Target));
}

#[test]
fn target_with_empty_host_is_invalid() {
    let r = resolve(Some(String::from("http://")), Some(String::from("10")));
    assert_eq!(r.unwrap_err(), ConfigError::Invalid(ConfigVar::Target));
}

#[test]
fn target_path_is_ignored() {
    let c = resolve(
        Some(String::from("http://example.com/some/path")),
        Some(String::from("10")),
    )
    .unwrap();
    assert_eq!(c.target.host, b"example.com".to_vec());
}

#[test]
fn timeout_zero_is_invalid() {
    let r = resolve(Some(String::from("http://h")), Some(String::from("0")));
    assert_eq!(r.unwrap_err(), ConfigError::Invalid(ConfigVar::Timeout));
}

#[test]
fn timeout_not_a_number_is_invalid() {
    let r = resolve(Some(String::from("http://h")), Some(String::from("abc")));
    assert_eq!(r.unwrap_err(), ConfigError::Invalid(ConfigVar::Timeout));
}

#[test]
fn timeout_empty_is_invalid() {
    let r = resolve(Some(String::from("http://h")), Some(String::new()));
    assert_eq!(r.unwrap_err(), ConfigError::Invalid(ConfigVar::Timeout));
}

#[test]
fn timeout_too_large_is_invalid() {
    // One past the largest 64-bit value.
    let r = resolve(
        Some(String::from("http://h")),
        Some(String::from("18446744073709551616")),
    );
    assert_eq!(r.unwrap_err(), ConfigError::Invalid(ConfigVar::Timeout));
}

#[test]
fn timeout_at_limit_is_valid() {
    let c = resolve(
        Some(String::from("http://h")),
        Some(String::from("18446744073709551615")),
    )
    .unwrap();
    assert_eq!(c.timeout_secs, u64::MAX);
}
