//! Error taxonomy of the cache: structural errors of decoded frames,
//! byte-level frame errors, transport errors, and client-side mismatches.

use vstd::prelude::*;

verus! {

/// A decoded frame violates the structural rules of a request or response.
#[derive(Debug, Clone, Copy, PartialEq, Eq, Structural)]
pub enum Parse {
    KeyMissing,
    ValueMissing,
    KeyAndValueMissing,
    UnexpectedKey,
    UnexpectedValue,
}

/// Bytes on the wire fail the codec rules. `Incomplete` is soft: the caller
/// reads more bytes and retries. The rest are hard errors that close the
/// connection.
#[derive(Debug, Clone, Copy, PartialEq, Eq, Structural)]
pub enum FrameError {
    Incomplete,
    InvalidOpCode,
    InvalidStatusCode,
    KeyTooLong,
    ValueTooLong,
}

/// Transport-level failures around a connection.
#[derive(Debug, Clone, Copy, PartialEq, Eq, Structural)]
pub enum ConnectionError {
    Read,
    ResetByPeer,
    Write,
    Send,
    Receive,
    Bind,
    Accept,
    LocalAddr,
    AcquireSemaphore,
}

/// A semantic mismatch observed by the client, such as a response whose
/// op-code does not match the request it answers.
#[derive(Debug, Clone, Copy, PartialEq, Eq, Structural)]
pub enum ClientError {
    ExpectedValue,
}

/// Any failure of the cache library.
#[derive(Debug, Clone, Copy, PartialEq, Eq, Structural)]
pub enum Error {
    Parse(Parse),
    Frame(FrameError),
    Connection(ConnectionError),
    Client(ClientError),
}

impl Error {
    pub fn new_parse(e: Parse) -> (r: Self)
        ensures
            r == Error::Parse(e),
    {
        Error::Parse(e)
    }

    pub fn new_frame(e: FrameError) -> (r: Self)
        ensures
            r == Error::Frame(e),
    {
        Error::Frame(e)
    }

    pub fn new_connection(e: ConnectionError) -> (r: Self)
        ensures
            r == Error::Connection(e),
    {
        Error::Connection(e)
    }

    pub fn new_client(e: ClientError) -> (r: Self)
        ensures
            r == Error::Client(e),
    {
        Error::Client(e)
    }

    /// True exactly on the soft error that asks the caller to read more bytes.
    pub fn is_incomplete_frame(&self) -> (r: bool)
        ensures
            r == (*self == Error::Frame(FrameError::Incomplete)),
    {
        matches!(self, Error::Frame(FrameError::Incomplete))
    }
}

} // verus!
