use nft_pipeline::event::{get_command_from_batch_event, get_message_from_sns_event, JsonValue};
use nft_pipeline::numtext::parse_i32;
use nft_pipeline::AppError;

fn obj(fields: Vec<(&str, JsonValue)>) -> JsonValue {
    JsonValue::Object(fields.into_iter().map(|(k, v)| (k.to_string(), v)).collect())
}

fn string(v: &str) -> JsonValue {
    JsonValue::Str(v.to_string())
}

fn sns_event(subject: JsonValue, message: JsonValue) -> JsonValue {
    obj(vec![(
        "Records",
        JsonValue::Array(vec![obj(vec![(
            "Sns",
            obj(vec![("Subject", subject), ("Message", message)]),
        )])]),
    )])
}

#[test]
fn a_wellformed_delivery_yields_subject_and_message() {
    let event = sns_event(string("3"), string("payload-bytes"));
    let (n, message) = get_message_from_sns_event(&event).unwrap();
    assert_eq!(n, 3);
    assert_eq!(message, "payload-bytes");
}

#[test]
fn only_the_first_record_is_read() {
    let first = obj(vec![(
        "Sns",
        obj(vec![("Subject", string("1")), ("Message", string("first"))]),
    )]);
    let second = obj(vec![(
        "Sns",
        obj(vec![("Subject", string("2")), ("Message", string("second"))]),
    )]);
    let event = obj(vec![("Records", JsonValue::Array(vec![first, second]))]);
    let (n, message) = get_message_from_sns_event(&event).unwrap();
    assert_eq!(n, 1);
    assert_eq!(message, "first");
}

#[test]
fn malformed_deliveries_are_hard_errors() {
    let cases = vec![
        JsonValue::Null,
        string("not an object"),
        obj(vec![]),
        obj(vec![("Records", JsonValue::Array(vec![]))]),
        obj(vec![("Records", string("not an array"))]),
        obj(vec![("Records", JsonValue::Array(vec![JsonValue::Null]))]),
        obj(vec![("Records", JsonValue::Array(vec![obj(vec![])]))]),
        sns_event(JsonValue::Number(3), string("m")),
        sns_event(string("3"), JsonValue::Null),
        sns_event(string("three"), string("m")),
        sns_event(string(""), string("m")),
    ];
    for event in cases {
        let err = get_message_from_sns_event(&event).unwrap_err();
        assert!(matches!(err, AppError::BadRequest(_)));
    }
}

#[test]
fn subjects_parse_as_small_integers() {
    assert_eq!(parse_i32(&"42".to_string()), Some(42));
    assert_eq!(parse_i32(&"-17".to_string()), Some(-17));
    assert_eq!(parse_i32(&"+5".to_string()), Some(5));
    assert_eq!(parse_i32(&"0".to_string()), Some(0));
    assert_eq!(parse_i32(&"2147483647".to_string()), Some(i32::MAX));
    assert_eq!(parse_i32(&"-2147483648".to_string()), Some(i32::MIN));
}

#[test]
fn non_numbers_and_overflow_do_not_parse() {
    assert_eq!(parse_i32(&String::new()), None);
    assert_eq!(parse_i32(&"abc".to_string()), None);
    assert_eq!(parse_i32(&"1a".to_string()), None);
    assert_eq!(parse_i32(&"-".to_string()), None);
    assert_eq!(parse_i32(&"+".to_string()), None);
    assert_eq!(parse_i32(&"2147483648".to_string()), None);
    assert_eq!(parse_i32(&"-2147483649".to_string()), None);
    assert_eq!(parse_i32(&"99999999999999999999".to_string()), None);
    assert_eq!(parse_i32(&" 3".to_string()), None);
}

#[test]
fn batch_events_carry_a_command() {
    let event = obj(vec![("command", string("sync-nft-asset"))]);
    assert_eq!(get_command_from_batch_event(&event).unwrap(), "sync-nft-asset");
}

#[test]
fn batch_events_without_a_command_are_hard_errors() {
    for event in [obj(vec![]), obj(vec![("command", JsonValue::Number(1))]), JsonValue::Null] {
        let err = get_command_from_batch_event(&event).unwrap_err();
        assert!(matches!(err, AppError::BadRequest(_)));
    }
}
