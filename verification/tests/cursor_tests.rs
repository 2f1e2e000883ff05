use nft_pipeline::cursor::{EncodableAttributeValue, PagingKey};
use nft_pipeline::AppError;

fn entry(name: &str, value: EncodableAttributeValue) -> (String, EncodableAttributeValue) {
    (name.to_string(), value)
}

fn s(v: &str) -> EncodableAttributeValue {
    EncodableAttributeValue::S(v.to_string())
}

fn n(v: &str) -> EncodableAttributeValue {
    EncodableAttributeValue::N(v.to_string())
}

#[test]
fn round_trip_single_string_entry() {
    let key = PagingKey::from(Some(vec![entry("ID", s("work-1"))]));
    let token = key.encode().expect("a present key encodes");
    let decoded = PagingKey::decode(Some(token)).expect("its token decodes");
    let entries = decoded.val.expect("a present key comes back");
    assert_eq!(entries.len(), 1);
    assert_eq!(entries[0].0, "ID");
    match &entries[0].1 {
        EncodableAttributeValue::S(v) => assert_eq!(v, "work-1"),
        _ => panic!("expected a string attribute"),
    }
}

#[test]
fn round_trip_mixed_entries_keeps_order_and_tags() {
    let key = PagingKey::from(Some(vec![
        entry("ID", s("w-9")),
        entry("Order", n("42")),
        entry("Status", s("Prepare")),
    ]));
    let token = key.encode().unwrap();
    let decoded = PagingKey::decode(Some(token)).unwrap();
    let entries = decoded.val.unwrap();
    assert_eq!(entries.len(), 3);
    assert_eq!(entries[0].0, "ID");
    assert_eq!(entries[1].0, "Order");
    assert_eq!(entries[2].0, "Status");
    match &entries[1].1 {
        EncodableAttributeValue::N(v) => assert_eq!(v, "42"),
        _ => panic!("the numeric tag must survive the trip"),
    }
}

#[test]
fn round_trip_survives_non_ascii_values() {
    let key = PagingKey::from(Some(vec![entry("Name", s("作品その一"))]));
    let token = key.encode().unwrap();
    let decoded = PagingKey::decode(Some(token)).unwrap();
    let entries = decoded.val.unwrap();
    match &entries[0].1 {
        EncodableAttributeValue::S(v) => assert_eq!(v, "作品その一"),
        _ => panic!("expected a string attribute"),
    }
}

#[test]
fn absent_token_decodes_to_absent_key() {
    let decoded = PagingKey::decode(None).unwrap();
    assert!(decoded.val.is_none());
}

#[test]
fn absent_key_has_no_token() {
    let key = PagingKey::from(None);
    assert!(key.encode().is_none());
}

#[test]
fn empty_key_round_trips() {
    let key = PagingKey::from(Some(vec![]));
    let token = key.encode().unwrap();
    assert_eq!(token, "");
    let decoded = PagingKey::decode(Some(token)).unwrap();
    assert_eq!(decoded.val.unwrap().len(), 0);
}

#[test]
fn token_is_url_safe_hex() {
    let key = PagingKey::from(Some(vec![entry("ID", s("a/b?c&d=e"))]));
    let token = key.encode().unwrap();
    assert!(token.chars().all(|c| c.is_ascii_hexdigit()));
}

#[test]
fn non_hex_token_is_rejected() {
    let err = PagingKey::decode(Some("not a cursor!".to_string())).unwrap_err();
    assert!(matches!(err, AppError::BadRequest(_)));
}

#[test]
fn odd_length_token_is_rejected() {
    let err = PagingKey::decode(Some("abc".to_string())).unwrap_err();
    assert!(matches!(err, AppError::BadRequest(_)));
}

#[test]
fn truncated_token_is_rejected() {
    let key = PagingKey::from(Some(vec![entry("ID", s("work-1"))]));
    let token = key.encode().unwrap();
    let truncated: String = token.chars().take(token.len() - 2).collect();
    let err = PagingKey::decode(Some(truncated)).unwrap_err();
    assert!(matches!(err, AppError::BadRequest(_)));
}

#[test]
fn foreign_bytes_are_rejected() {
    // A valid hex spelling of bytes that are no key: tag 9 is unregistered.
    let err = PagingKey::decode(Some("09".to_string())).unwrap_err();
    assert!(matches!(err, AppError::BadRequest(_)));
}
