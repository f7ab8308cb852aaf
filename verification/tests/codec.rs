use bytes::BytesMut;
use cached::connection::{read_request, read_response};
use cached::domain::{Key, TTLSinceUnixEpochInMillis, Value};
use cached::error::{Error, FrameError, Parse};
use cached::parsing::{parse_request_frame, parse_response_frame};
use cached::primitives::{OpCode, StatusCode};
use cached::request::Request;
use cached::response::{Response, ResponseBody, ResponseBodyGet};

fn key(s: &str) -> Key {
    Key::parse(s.to_string()).unwrap()
}

fn value(s: &str) -> Value {
    Value::parse(s.to_string()).unwrap()
}

/// The 30-byte SET frame of the fragmentation scenario:
/// op 1, padding, key length 3, 16 TTL bytes of zero, total length 30,
/// then "ABC" and "1234".
fn set_frame_bytes() -> Vec<u8> {
    let mut b = vec![1u8, 0, 3];
    b.extend_from_slice(&[0u8; 16]);
    b.extend_from_slice(&[0, 0, 0, 30]);
    b.extend_from_slice(b"ABC1234");
    b
}

#[test]
fn test_encoding_a_put_request_yields_the_exact_frame_bytes() {
    let request = Request::Put {
        key: key("ABC"),
        value: value("1234"),
        ttl_since_unix_epoch_in_millis: None,
    };
    assert_eq!(request.into_frame().encode(), set_frame_bytes());
}

#[test]
fn test_decoder_returns_incomplete_on_every_proper_prefix() {
    let bytes = set_frame_bytes();
    let expected = Request::Put {
        key: key("ABC"),
        value: value("1234"),
        ttl_since_unix_epoch_in_millis: None,
    };
    for n in 0..bytes.len() {
        assert!(matches!(
            parse_request_frame(&bytes[..n]),
            Err(Error::Frame(FrameError::Incomplete))
        ));
    }
    let frame = parse_request_frame(&bytes).unwrap();
    assert_eq!(Request::from_frame(frame), Ok(expected));
}

#[test]
fn test_feeding_the_read_buffer_byte_by_byte_yields_the_request() {
    let bytes = set_frame_bytes();
    let mut buffer = BytesMut::new();
    for (i, b) in bytes.iter().enumerate() {
        buffer.extend_from_slice(&[*b]);
        let r = read_request(&mut buffer).unwrap();
        if i + 1 < bytes.len() {
            assert!(r.is_none(), "byte {} should leave the frame incomplete", i);
        } else {
            assert_eq!(
                r,
                Some(Request::Put {
                    key: key("ABC"),
                    value: value("1234"),
                    ttl_since_unix_epoch_in_millis: None,
                })
            );
        }
    }
    // The frame was consumed: the buffer can serve the next one.
    assert_eq!(read_request(&mut buffer), Ok(None));
    buffer.extend_from_slice(&set_frame_bytes());
    assert!(read_request(&mut buffer).unwrap().is_some());
}

#[test]
fn test_request_round_trip_for_every_operation() {
    let requests = vec![
        Request::Get(key("some key")),
        Request::Put {
            key: key("k"),
            value: value("v"),
            ttl_since_unix_epoch_in_millis: Some(123_456_789_012),
        },
        Request::Put {
            key: key("k"),
            value: value("v"),
            ttl_since_unix_epoch_in_millis: None,
        },
        Request::Delete(key("another key")),
        Request::Flush,
    ];
    for request in requests {
        let bytes = request.into_frame().encode();
        let frame = parse_request_frame(&bytes).unwrap();
        let back = Request::from_frame(frame).unwrap();
        let again = back.into_frame().encode();
        assert_eq!(again, bytes);
    }
}

#[test]
fn test_response_round_trip_for_every_body() {
    let responses = vec![
        Response::new(
            StatusCode::Success,
            ResponseBody::Get(Some(ResponseBodyGet {
                key: key("ABC"),
                value: value("1234"),
                ttl_since_unix_epoch_in_millis: None,
            })),
        ),
        Response::new(
            StatusCode::Success,
            ResponseBody::Get(Some(ResponseBodyGet {
                key: key("k"),
                value: value("v"),
                ttl_since_unix_epoch_in_millis: Some(99_999),
            })),
        ),
        Response::new(StatusCode::KeyNotFound, ResponseBody::Get(None)),
        Response::new(StatusCode::Success, ResponseBody::Put),
        Response::new(StatusCode::KeyExists, ResponseBody::Put),
        Response::new(StatusCode::Success, ResponseBody::Delete),
        Response::new(StatusCode::KeyNotFound, ResponseBody::Delete),
        Response::new(StatusCode::Success, ResponseBody::Flush),
    ];
    for response in responses {
        let bytes = response.into_frame().encode();
        let frame = parse_response_frame(&bytes).unwrap();
        let back = Response::from_frame(frame).unwrap();
        let again = back.into_frame().encode();
        assert_eq!(again, bytes);
    }
}

#[test]
fn test_decoding_reencodes_to_the_consumed_bytes() {
    // A request frame with a non-zero TTL field and trailing garbage.
    let request = Request::Put {
        key: key("key"),
        value: value("value"),
        ttl_since_unix_epoch_in_millis: Some(7),
    };
    let mut bytes = request.into_frame().encode();
    let n = bytes.len();
    bytes.extend_from_slice(b"trailing bytes of the next frame");
    let frame = parse_request_frame(&bytes).unwrap();
    assert_eq!(frame.encode(), bytes[..n].to_vec());
}

#[test]
fn test_invalid_op_code_is_a_hard_error() {
    let mut bytes = set_frame_bytes();
    bytes[0] = 9;
    assert!(matches!(
        parse_request_frame(&bytes),
        Err(Error::Frame(FrameError::InvalidOpCode))
    ));
    assert!(matches!(
        parse_response_frame(&bytes),
        Err(Error::Frame(FrameError::InvalidOpCode))
    ));
}

#[test]
fn test_invalid_status_code_is_a_hard_error() {
    let mut bytes = set_frame_bytes();
    bytes[1] = 4;
    assert!(matches!(
        parse_response_frame(&bytes),
        Err(Error::Frame(FrameError::InvalidStatusCode))
    ));
}

#[test]
fn test_an_overlong_value_is_rejected() {
    let payload_len = 1024 * 1024 + 1;
    let total = (23 + payload_len) as u32;
    let mut bytes = vec![2u8, 0, 0];
    bytes.extend_from_slice(&[0u8; 16]);
    bytes.extend_from_slice(&total.to_be_bytes());
    bytes.extend_from_slice(&vec![b'a'; payload_len]);
    assert!(matches!(
        parse_request_frame(&bytes),
        Err(Error::Frame(FrameError::ValueTooLong))
    ));
}

#[test]
fn test_structural_rules_of_decoded_requests() {
    // PUT without key or value.
    let mut empty_put = vec![1u8, 0, 0];
    empty_put.extend_from_slice(&[0u8; 16]);
    empty_put.extend_from_slice(&[0, 0, 0, 23]);
    let frame = parse_request_frame(&empty_put).unwrap();
    assert_eq!(
        Request::from_frame(frame),
        Err(Error::Parse(Parse::KeyMissing))
    );

    // PUT with a key but no value.
    let mut put_without_value = vec![1u8, 0, 3];
    put_without_value.extend_from_slice(&[0u8; 16]);
    put_without_value.extend_from_slice(&[0, 0, 0, 26]);
    put_without_value.extend_from_slice(b"ABC");
    let frame = parse_request_frame(&put_without_value).unwrap();
    assert_eq!(
        Request::from_frame(frame),
        Err(Error::Parse(Parse::ValueMissing))
    );

    // GET with an unexpected value.
    let get_with_value = set_frame_bytes()
        .iter()
        .enumerate()
        .map(|(i, b)| if i == 0 { 2u8 } else { *b })
        .collect::<Vec<u8>>();
    let frame = parse_request_frame(&get_with_value).unwrap();
    assert_eq!(
        Request::from_frame(frame),
        Err(Error::Parse(Parse::UnexpectedValue))
    );

    // FLUSH with an unexpected key.
    let mut flush_with_key = vec![4u8, 0, 3];
    flush_with_key.extend_from_slice(&[0u8; 16]);
    flush_with_key.extend_from_slice(&[0, 0, 0, 26]);
    flush_with_key.extend_from_slice(b"ABC");
    let frame = parse_request_frame(&flush_with_key).unwrap();
    assert_eq!(
        Request::from_frame(frame),
        Err(Error::Parse(Parse::UnexpectedKey))
    );
}

#[test]
fn test_get_response_payload_is_mandatory_only_on_success() {
    // A GET response without payload: hard error under Success ...
    let mut bytes = vec![2u8, 0, 0];
    bytes.extend_from_slice(&[0u8; 16]);
    bytes.extend_from_slice(&[0, 0, 0, 23]);
    let frame = parse_response_frame(&bytes).unwrap();
    assert_eq!(
        Response::from_frame(frame),
        Err(Error::Parse(Parse::KeyAndValueMissing))
    );

    // ... but a perfectly fine miss under KeyNotFound.
    bytes[1] = 1;
    let frame = parse_response_frame(&bytes).unwrap();
    assert_eq!(
        Response::from_frame(frame),
        Ok(Response::new(StatusCode::KeyNotFound, ResponseBody::Get(None)))
    );
}

#[test]
fn test_ttl_zero_on_the_wire_means_no_ttl() {
    assert_eq!(TTLSinceUnixEpochInMillis::parse(Some(0)).into_ttl(), None);
    assert_eq!(TTLSinceUnixEpochInMillis::parse(None).into_inner(), 0);
    assert_eq!(
        TTLSinceUnixEpochInMillis::parse(Some(17)).into_ttl(),
        Some(17)
    );
    assert_eq!(TTLSinceUnixEpochInMillis::parse(Some(17)).into_inner(), 17);
}

#[test]
fn test_keys_render_invalid_utf8_with_replacement_characters() {
    let k = Key::from_bytes(vec![0xff, b'A']);
    assert_eq!(k.into_inner(), "\u{FFFD}A".to_string());
    let v = Value::from_bytes(b"plain text".to_vec());
    assert_eq!(v.into_inner(), "plain text".to_string());
}

#[test]
fn test_reading_a_response_from_the_buffer() {
    let response = Response::new(
        StatusCode::Success,
        ResponseBody::Get(Some(ResponseBodyGet {
            key: key("ABC"),
            value: value("1234"),
            ttl_since_unix_epoch_in_millis: None,
        })),
    );
    let bytes = response.into_frame().encode();
    let mut buffer = BytesMut::new();
    buffer.extend_from_slice(&bytes[..10]);
    assert_eq!(read_response(&mut buffer), Ok(None));
    buffer.extend_from_slice(&bytes[10..]);
    let got = read_response(&mut buffer).unwrap().unwrap();
    assert_eq!(
        got,
        Response::new(
            StatusCode::Success,
            ResponseBody::Get(Some(ResponseBodyGet {
                key: key("ABC"),
                value: value("1234"),
                ttl_since_unix_epoch_in_millis: None,
            })),
        )
    );
}
