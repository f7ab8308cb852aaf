use cached::error::{Error, FrameError};
use cached::primitives::{OpCode, StatusCode};

#[test]
fn primitives_test_op_code_serialisation() {
    assert_eq!(OpCode::Put.as_u8(), 1);
    assert_eq!(OpCode::Get.as_u8(), 2);
    assert_eq!(OpCode::Delete.as_u8(), 3);
    assert_eq!(OpCode::Flush.as_u8(), 4);
}

#[test]
fn primitives_test_op_code_deserialisation_works() {
    assert_eq!(OpCode::try_from_u8(1), Ok(OpCode::Put));
    assert_eq!(OpCode::try_from_u8(2), Ok(OpCode::Get));
    assert_eq!(OpCode::try_from_u8(3), Ok(OpCode::Delete));
    assert_eq!(OpCode::try_from_u8(4), Ok(OpCode::Flush));
}

#[test]
fn test_op_code_deserialization_fails_for_wrong_codes() {
    for input in [0u8, 5, 6, 7, 8, 9, 10] {
        assert_eq!(
            OpCode::try_from_u8(input),
            Err(Error::Frame(FrameError::InvalidOpCode))
        );
    }
}

#[test]
fn primitives_test_status_code_serialization() {
    assert_eq!(StatusCode::Success.as_u8(), 0);
    assert_eq!(StatusCode::KeyNotFound.as_u8(), 1);
    assert_eq!(StatusCode::KeyExists.as_u8(), 2);
    assert_eq!(StatusCode::InternalError.as_u8(), 3);
}

#[test]
fn primitives_test_status_code_deserialization_works() {
    assert_eq!(StatusCode::try_from_u8(0), Ok(StatusCode::Success));
    assert_eq!(StatusCode::try_from_u8(1), Ok(StatusCode::KeyNotFound));
    assert_eq!(StatusCode::try_from_u8(2), Ok(StatusCode::KeyExists));
    assert_eq!(StatusCode::try_from_u8(3), Ok(StatusCode::InternalError));
}

#[test]
fn test_status_code_deserialization_fails_for_wrong_codes() {
    for input in [4u8, 5, 6, 7, 8, 9, 10] {
        assert_eq!(
            StatusCode::try_from_u8(input),
            Err(Error::Frame(FrameError::InvalidStatusCode))
        );
    }
}
