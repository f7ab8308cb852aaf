//! The two one-byte enumerations of the wire format: the operation code of a
//! frame and the status code of a response.

use vstd::prelude::*;
use crate::error::{Error, FrameError};

verus! {

/// Status of a response: byte 1 of a response header.
#[derive(Debug, Clone, Copy, PartialEq, Eq, Hash, Structural)]
pub enum StatusCode {
    Success,
    KeyNotFound,
    KeyExists,
    InternalError,
}

/// Operation selector: byte 0 of every frame.
#[derive(Debug, Clone, Copy, PartialEq, Eq, Hash, Structural)]
pub enum OpCode {
    Put,
    Get,
    Delete,
    Flush,
}

impl StatusCode {
    /// The byte that stands for this status on the wire.
    pub open spec fn spec_byte(self) -> u8 {
        match self {
            StatusCode::Success => 0,
            StatusCode::KeyNotFound => 1,
            StatusCode::KeyExists => 2,
            StatusCode::InternalError => 3,
        }
    }

    pub fn as_u8(self) -> (r: u8)
        ensures
            r == self.spec_byte(),
    {
        match self {
            StatusCode::Success => 0,
            StatusCode::KeyNotFound => 1,
            StatusCode::KeyExists => 2,
            StatusCode::InternalError => 3,
        }
    }

    pub fn try_from_u8(value: u8) -> (r: Result<Self, Error>)
        ensures
            r == spec_status_code_of_byte(value),
    {
        match value {
            0 => Ok(StatusCode::Success),
            1 => Ok(StatusCode::KeyNotFound),
            2 => Ok(StatusCode::KeyExists),
            3 => Ok(StatusCode::InternalError),
            _ => Err(Error::Frame(FrameError::InvalidStatusCode)),
        }
    }
}

/// The status encoded by a byte; bytes above 3 are invalid.
pub open spec fn spec_status_code_of_byte(value: u8) -> Result<StatusCode, Error> {
    match value {
        0 => Ok(StatusCode::Success),
        1 => Ok(StatusCode::KeyNotFound),
        2 => Ok(StatusCode::KeyExists),
        3 => Ok(StatusCode::InternalError),
        _ => Err(Error::Frame(FrameError::InvalidStatusCode)),
    }
}

impl OpCode {
    /// The byte that stands for this operation on the wire.
    pub open spec fn spec_byte(self) -> u8 {
        match self {
            OpCode::Put => 1,
            OpCode::Get => 2,
            OpCode::Delete => 3,
            OpCode::Flush => 4,
        }
    }

    pub fn as_u8(self) -> (r: u8)
        ensures
            r == self.spec_byte(),
    {
        match self {
            OpCode::Put => 1,
            OpCode::Get => 2,
            OpCode::Delete => 3,
            OpCode::Flush => 4,
        }
    }

    pub fn try_from_u8(value: u8) -> (r: Result<Self, Error>)
        ensures
            r == spec_op_code_of_byte(value),
    {
        match value {
            1 => Ok(OpCode::Put),
            2 => Ok(OpCode::Get),
            3 => Ok(OpCode::Delete),
            4 => Ok(OpCode::Flush),
            _ => Err(Error::Frame(FrameError::InvalidOpCode)),
        }
    }
}

/// The operation encoded by a byte; 0 and bytes above 4 are invalid.
pub open spec fn spec_op_code_of_byte(value: u8) -> Result<OpCode, Error> {
    match value {
        1 => Ok(OpCode::Put),
        2 => Ok(OpCode::Get),
        3 => Ok(OpCode::Delete),
        4 => Ok(OpCode::Flush),
        _ => Err(Error::Frame(FrameError::InvalidOpCode)),
    }
}

/// A byte that decodes to an op code is reproduced by serialising it.
pub proof fn lemma_op_code_byte_inverse(value: u8)
    requires
        spec_op_code_of_byte(value) is Ok,
    ensures
        (spec_op_code_of_byte(value) ->Ok_0).spec_byte() == value,
{
}

/// A byte that decodes to a status code is reproduced by serialising it.
pub proof fn lemma_status_code_byte_inverse(value: u8)
    requires
        spec_status_code_of_byte(value) is Ok,
    ensures
        (spec_status_code_of_byte(value) ->Ok_0).spec_byte() == value,
{
}

/// Serialising an op code and reading the byte back returns the op code.
pub proof fn lemma_op_code_byte_round_trip(op: OpCode)
    ensures
        spec_op_code_of_byte(op.spec_byte()) == Ok::<OpCode, Error>(op),
{
}

/// Serialising a status code and reading the byte back returns the status.
pub proof fn lemma_status_code_byte_round_trip(status: StatusCode)
    ensures
        spec_status_code_of_byte(status.spec_byte()) == Ok::<StatusCode, Error>(status),
{
}

} // verus!
