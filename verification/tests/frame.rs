use cached::domain::{Key, Value};
use cached::error::{Error, FrameError};

#[test]
fn frame_test_parsing_request_with_valid_long_key_works() {
    let key = "a".repeat(u8::MAX as usize);
    assert!(
        Key::parse(key).is_ok(),
        "Was not able to parse a valid long key!"
    );
}

#[test]
fn frame_test_parsing_request_with_too_long_key_fails() {
    let key = "a".repeat(u8::MAX as usize + 1);
    assert!(matches!(
        Key::parse(key),
        Err(Error::Frame(FrameError::KeyTooLong))
    ));
}

#[test]
fn frame_test_parsing_request_header_with_valid_long_value_works() {
    let value = "a".repeat((1024 * 1024) as usize);
    assert!(
        Value::parse(value).is_ok(),
        "Was not able to parse a valid long value!"
    );
}

#[test]
fn frame_test_parsing_request_header_with_too_long_value_fails() {
    let value = "a".repeat((1024 * 1024) as usize + 1);
    assert!(matches!(
        Value::parse(value),
        Err(Error::Frame(FrameError::ValueTooLong))
    ));
}
