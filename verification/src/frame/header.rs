//! The fixed 23-byte header shared by request and response frames.

use vstd::prelude::*;
use vstd::string::StringSliceAdditionalSpecFns;
use crate::domain::{TTLSinceUnixEpochInMillis, MAX_KEY_LENGTH, MAX_VALUE_LENGTH};
use crate::error::{Error, FrameError};
use crate::primitives::{OpCode, StatusCode};

verus! {

/// Every frame starts with this many header bytes.
pub const HEADER_SIZE_BYTES: u8 = 23;

/// Header of a request frame. Byte 1 of the encoding is padding.
#[derive(Debug, Clone, Copy, PartialEq, Eq, Structural)]
pub struct RequestHeader {
    pub op_code: OpCode,
    pub key_length: u8,
    pub ttl_since_unix_epoch_in_millis: TTLSinceUnixEpochInMillis,
    pub total_frame_length: u32,
}

/// Header of a response frame. Byte 1 of the encoding carries the status.
#[derive(Debug, Clone, Copy, PartialEq, Eq, Structural)]
pub struct ResponseHeader {
    pub op_code: OpCode,
    pub status: StatusCode,
    pub key_length: u8,
    pub ttl_since_unix_epoch_in_millis: TTLSinceUnixEpochInMillis,
    pub total_frame_length: u32,
}

/// Byte length of an optional text key or value.
pub open spec fn spec_str_len(s: Option<&str>) -> int {
    match s {
        Option::Some(s) => s.spec_bytes().len() as int,
        Option::None => 0,
    }
}

impl RequestHeader {
    pub fn new(
        op_code: OpCode,
        key_length: u8,
        total_frame_length: u32,
        ttl_since_unix_epoch_in_millis: TTLSinceUnixEpochInMillis,
    ) -> (r: Self)
        ensures
            r == (RequestHeader { op_code, key_length, ttl_since_unix_epoch_in_millis, total_frame_length }),
    {
        Self { op_code, key_length, ttl_since_unix_epoch_in_millis, total_frame_length }
    }

    pub fn size() -> (r: u8)
        ensures
            r == HEADER_SIZE_BYTES,
    {
        HEADER_SIZE_BYTES
    }

    /// Build a header for a request over text key and value, validating the
    /// length bounds.
    pub fn parse(
        op_code: OpCode,
        key: Option<&str>,
        value: Option<&str>,
        ttl_since_unix_epoch_in_millis: Option<u128>,
    ) -> (r: Result<Self, Error>)
        ensures
            match r {
                Result::Ok(h) => spec_str_len(key) <= MAX_KEY_LENGTH as int && spec_str_len(value)
                    <= MAX_VALUE_LENGTH as int && h.op_code == op_code && h.key_length as int
                    == spec_str_len(key) && h.total_frame_length as int == HEADER_SIZE_BYTES as int
                    + spec_str_len(key) + spec_str_len(value)
                    && h.ttl_since_unix_epoch_in_millis@ == (match ttl_since_unix_epoch_in_millis {
                    Option::Some(t) => t,
                    Option::None => 0u128,
                }),
                Result::Err(e) => (e == Error::Frame(FrameError::KeyTooLong) && spec_str_len(key)
                    > MAX_KEY_LENGTH as int) || (e == Error::Frame(FrameError::ValueTooLong)
                    && spec_str_len(key) <= MAX_KEY_LENGTH as int && spec_str_len(value)
                    > MAX_VALUE_LENGTH as int),
            },
    {
        let (key_length, total_frame_length) = get_key_and_total_frame_length(key, value)?;
        let ttl = TTLSinceUnixEpochInMillis::parse(ttl_since_unix_epoch_in_millis);
        Ok(
            Self {
                op_code,
                key_length,
                ttl_since_unix_epoch_in_millis: ttl,
                total_frame_length,
            },
        )
    }

    pub fn get_opcode(&self) -> (r: &OpCode)
        ensures
            r == &self.op_code,
    {
        &self.op_code
    }
}

impl ResponseHeader {
    pub fn new(
        op_code: OpCode,
        status: StatusCode,
        key_length: u8,
        total_frame_length: u32,
        ttl_since_unix_epoch_in_millis: TTLSinceUnixEpochInMillis,
    ) -> (r: Self)
        ensures
            r == (ResponseHeader {
                op_code,
                status,
                key_length,
                ttl_since_unix_epoch_in_millis,
                total_frame_length,
            }),
    {
        Self { op_code, status, key_length, ttl_since_unix_epoch_in_millis, total_frame_length }
    }

    pub fn size() -> (r: u8)
        ensures
            r == HEADER_SIZE_BYTES,
    {
        HEADER_SIZE_BYTES
    }

    /// Build a header for a response over text key and value, validating the
    /// length bounds. Responses built this way carry no TTL.
    pub fn parse(op_code: OpCode, status: StatusCode, key: Option<&str>, value: Option<&str>) -> (r:
        Result<Self, Error>)
        ensures
            match r {
                Result::Ok(h) => spec_str_len(key) <= MAX_KEY_LENGTH as int && spec_str_len(value)
                    <= MAX_VALUE_LENGTH as int && h.op_code == op_code && h.status == status
                    && h.key_length as int == spec_str_len(key) && h.total_frame_length as int
                    == HEADER_SIZE_BYTES as int + spec_str_len(key) + spec_str_len(value)
                    && h.ttl_since_unix_epoch_in_millis@ == 0,
                Result::Err(e) => (e == Error::Frame(FrameError::KeyTooLong) && spec_str_len(key)
                    > MAX_KEY_LENGTH as int) || (e == Error::Frame(FrameError::ValueTooLong)
                    && spec_str_len(key) <= MAX_KEY_LENGTH as int && spec_str_len(value)
                    > MAX_VALUE_LENGTH as int),
            },
    {
        let (key_length, total_frame_length) = get_key_and_total_frame_length(key, value)?;
        Ok(
            Self {
                op_code,
                status,
                key_length,
                ttl_since_unix_epoch_in_millis: TTLSinceUnixEpochInMillis::parse(Option::None),
                total_frame_length,
            },
        )
    }

    pub fn get_opcode(&self) -> (r: &OpCode)
        ensures
            r == &self.op_code,
    {
        &self.op_code
    }

    pub fn get_status(&self) -> (r: &StatusCode)
        ensures
            r == &self.status,
    {
        &self.status
    }
}

/// A key must not be longer than 255 bytes.
pub fn validate_key_length(key: Option<&str>) -> (r: Result<u8, Error>)
    ensures
        match r {
            Result::Ok(n) => n as int == spec_str_len(key) && spec_str_len(key)
                <= MAX_KEY_LENGTH as int,
            Result::Err(e) => e == Error::Frame(FrameError::KeyTooLong) && spec_str_len(key)
                > MAX_KEY_LENGTH as int,
        },
{
    let key_length: usize = match key {
        Option::Some(s) => s.as_bytes().len(),
        Option::None => 0,
    };
    if key_length > MAX_KEY_LENGTH as usize {
        return Err(Error::Frame(FrameError::KeyTooLong));
    }
    Ok(key_length as u8)
}

/// A value must not be longer than 1 MiB.
pub fn validate_value_length(value: Option<&str>) -> (r: Result<u32, Error>)
    ensures
        match r {
            Result::Ok(n) => n as int == spec_str_len(value) && spec_str_len(value)
                <= MAX_VALUE_LENGTH as int,
            Result::Err(e) => e == Error::Frame(FrameError::ValueTooLong) && spec_str_len(value)
                > MAX_VALUE_LENGTH as int,
        },
{
    let value_length: usize = match value {
        Option::Some(s) => s.as_bytes().len(),
        Option::None => 0,
    };
    if value_length > MAX_VALUE_LENGTH as usize {
        return Err(Error::Frame(FrameError::ValueTooLong));
    }
    Ok(value_length as u32)
}

/// Validate both lengths and compute the total frame length.
pub fn get_key_and_total_frame_length(key: Option<&str>, value: Option<&str>) -> (r: Result<
    (u8, u32),
    Error,
>)
    ensures
        match r {
            Result::Ok(p) => p.0 as int == spec_str_len(key) && spec_str_len(key)
                <= MAX_KEY_LENGTH as int && spec_str_len(value) <= MAX_VALUE_LENGTH as int
                && p.1 as int == HEADER_SIZE_BYTES as int + spec_str_len(key) + spec_str_len(
                value,
            ),
            Result::Err(e) => (e == Error::Frame(FrameError::KeyTooLong) && spec_str_len(key)
                > MAX_KEY_LENGTH as int) || (e == Error::Frame(FrameError::ValueTooLong)
                && spec_str_len(key) <= MAX_KEY_LENGTH as int && spec_str_len(value)
                > MAX_VALUE_LENGTH as int),
        },
{
    let key_length = validate_key_length(key)?;
    let value_length = validate_value_length(value)?;
    let total_frame_length = HEADER_SIZE_BYTES as u32 + key_length as u32 + value_length;
    Ok((key_length, total_frame_length))
}

} // verus!
