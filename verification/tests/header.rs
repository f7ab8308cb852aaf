use cached::domain::{Key, Value};
use cached::error::{Error, FrameError};
use cached::frame::header::{RequestHeader, ResponseHeader};
use cached::primitives::{OpCode, StatusCode};

#[test]
fn header_test_parsing_request_with_valid_long_key_works() {
    let key = "a".repeat(u8::MAX as usize);
    assert!(
        Key::parse(key).is_ok(),
        "Was not able to parse a valid long key!"
    );
}

#[test]
fn header_test_parsing_request_with_too_long_key_fails() {
    let key = "a".repeat(u8::MAX as usize + 1);
    assert!(matches!(
        Key::parse(key),
        Err(Error::Frame(FrameError::KeyTooLong))
    ));
}

#[test]
fn header_test_parsing_request_header_with_valid_long_value_works() {
    let value = "a".repeat((1024 * 1024) as usize);
    assert!(
        Value::parse(value.clone()).is_ok(),
        "Was not able to parse a valid long value!"
    );
    assert!(
        RequestHeader::parse(OpCode::Get, None, Some(value.as_str()), None).is_ok(),
        "Was not able to parse a valid long value!"
    );
}

#[test]
fn header_test_parsing_request_header_with_too_long_value_fails() {
    let value = "a".repeat((1024 * 1024) as usize + 1);
    assert!(matches!(
        Value::parse(value.clone()),
        Err(Error::Frame(FrameError::ValueTooLong))
    ));
    assert_eq!(
        RequestHeader::parse(OpCode::Get, None, Some(value.as_str()), None),
        Err(Error::Frame(FrameError::ValueTooLong))
    );
}

#[test]
fn test_parsing_request_header_with_valid_long_key_works() {
    let key = "a".repeat(u8::MAX as usize);
    assert!(
        RequestHeader::parse(OpCode::Get, Some(key.as_str()), None, None).is_ok(),
        "Was not able to parse a valid long key!"
    );
}

#[test]
fn test_parsing_request_header_with_too_long_key_fails() {
    let key = "a".repeat(u8::MAX as usize + 1);
    assert_eq!(
        RequestHeader::parse(OpCode::Get, Some(key.as_str()), None, None),
        Err(Error::Frame(FrameError::KeyTooLong))
    );
}

#[test]
fn test_parsing_request_header_with_valid_long_key_and_value_works() {
    let key = "a".repeat(u8::MAX as usize);
    let value = "a".repeat((1024 * 1024) as usize);
    assert!(
        RequestHeader::parse(OpCode::Get, Some(key.as_str()), Some(value.as_str()), None).is_ok(),
        "Was not able to parse a valid long value!"
    );
}

#[test]
fn test_parsing_response_header_with_valid_long_key_works() {
    let key = "a".repeat(u8::MAX as usize);
    assert!(
        ResponseHeader::parse(OpCode::Get, StatusCode::Success, Some(key.as_str()), None).is_ok(),
        "Was not able to parse a valid long key!"
    );
}

#[test]
fn test_parsing_response_header_with_too_long_key_fails() {
    let key = "a".repeat(u8::MAX as usize + 1);
    assert_eq!(
        ResponseHeader::parse(OpCode::Get, StatusCode::Success, Some(key.as_str()), None),
        Err(Error::Frame(FrameError::KeyTooLong))
    );
}

#[test]
fn test_parsing_response_header_with_valid_long_value_works() {
    let value = "a".repeat((1024 * 1024) as usize);
    assert!(
        ResponseHeader::parse(OpCode::Get, StatusCode::Success, None, Some(value.as_str())).is_ok(),
        "Was not able to parse a valid long value!"
    );
}

#[test]
fn test_parsing_response_header_with_too_long_value_fails() {
    let value = "a".repeat((1024 * 1024) as usize + 1);
    assert_eq!(
        ResponseHeader::parse(OpCode::Get, StatusCode::Success, None, Some(value.as_str())),
        Err(Error::Frame(FrameError::ValueTooLong))
    );
}

#[test]
fn test_parsing_response_header_with_valid_long_key_and_value_works() {
    let key = "a".repeat(u8::MAX as usize);
    let value = "a".repeat((1024 * 1024) as usize);
    assert!(
        ResponseHeader::parse(
            OpCode::Get,
            StatusCode::Success,
            Some(key.as_str()),
            Some(value.as_str())
        )
        .is_ok(),
        "Was not able to parse a valid long value!"
    );
}

#[test]
fn test_request_header_fields_are_computed_from_the_payload() {
    let h = RequestHeader::parse(OpCode::Put, Some("ABC"), Some("1234"), Some(77)).unwrap();
    assert_eq!(h.op_code, OpCode::Put);
    assert_eq!(h.key_length, 3);
    assert_eq!(h.total_frame_length, 23 + 3 + 4);
    assert_eq!(h.ttl_since_unix_epoch_in_millis.into_ttl(), Some(77));
    assert_eq!(RequestHeader::size(), 23);
    assert_eq!(ResponseHeader::size(), 23);

    let h = ResponseHeader::parse(OpCode::Get, StatusCode::KeyExists, Some("AB"), None).unwrap();
    assert_eq!(*h.get_opcode(), OpCode::Get);
    assert_eq!(*h.get_status(), StatusCode::KeyExists);
    assert_eq!(h.key_length, 2);
    assert_eq!(h.total_frame_length, 25);
    assert_eq!(h.ttl_since_unix_epoch_in_millis.into_ttl(), None);
}
