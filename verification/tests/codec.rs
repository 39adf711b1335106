//! Body codec behaviour.

use relay::body::Body;

#[test]
fn round_trip_bytes() {
    let bytes = vec![1u8, 2, 3, 0, 255];
    let body = Body::from_bytes(bytes.clone());
    assert!(matches!(body, Body::Binary(_)));
    assert_eq!(body.to_bytes(), bytes);
}

#[test]
fn round_trip_empty() {
    let body = Body::from_bytes(Vec::new());
    assert!(matches!(body, Body::Empty));
    assert_eq!(body.to_bytes(), Vec::<u8>::new());
}

#[test]
fn text_encodes_as_utf8() {
    let body = Body::Text(String::from("test"));
    assert_eq!(body.to_bytes(), b"test".to_vec());
}

#[test]
fn empty_variants_are_wire_empty() {
    assert!(Body::Empty.is_wire_empty());
    assert!(Body::Text(String::new()).is_wire_empty());
    assert!(Body::Binary(Vec::new()).is_wire_empty());
    assert!(!Body::Binary(vec![0u8]).is_wire_empty());
    assert!(!Body::Text(String::from("x")).is_wire_empty());
}
