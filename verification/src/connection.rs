//! Reading whole requests and responses out of a connection's growable read
//! buffer. The buffer is a [`bytes::BytesMut`] that the transport appends to;
//! decoding consumes exactly one frame from its head, and an incomplete head
//! frame leaves the buffer untouched so the caller can read more bytes.

use vstd::prelude::*;
use bytes::Buf;
use bytes::BytesMut;
use crate::error::Error;
use crate::parsing::{parse_request_frame, parse_response_frame, spec_decode_request, spec_decode_response};
use crate::request::{spec_frame_to_request, Request};
use crate::response::{spec_frame_to_response, Response};

verus! {

#[verifier::external_type_specification]
#[verifier::external_body]
pub struct ExBytesMut(BytesMut);

/// The bytes a read buffer holds, oldest first.
pub uninterp spec fn spec_buffered(b: BytesMut) -> Seq<u8>;

/// Relies on `Buf::chunk` for `BytesMut`: it returns the whole buffered
/// contents as one slice.
#[verifier::external_body]
fn buffer_bytes(b: &BytesMut) -> (r: &[u8])
    ensures
        r@ == spec_buffered(*b),
{
    b.chunk()
}

/// Relies on `Buf::advance` for `BytesMut`: it drops the first `n` buffered
/// bytes and keeps the rest; it panics when `n` exceeds what is buffered,
/// which the precondition rules out.
#[verifier::external_body]
fn buffer_advance(b: &mut BytesMut, n: usize)
    requires
        n as int <= spec_buffered(*old(b)).len(),
    ensures
        spec_buffered(*final(b)) == spec_buffered(*old(b)).skip(n as int),
{
    b.advance(n)
}

/// Try to take one request from the head of the buffer. `Ok(None)` asks the
/// caller to read more bytes first; a decoded frame is consumed from the
/// buffer even when its shape then fails the structural rules.
pub fn read_request(buffer: &mut BytesMut) -> (r: Result<Option<Request>, Error>)
    ensures
        ({
            let b = spec_buffered(*old(buffer));
            match spec_decode_request(b) {
                Err(e) => {
                    &&& spec_buffered(*final(buffer)) == b
                    &&& if e == Error::Frame(crate::error::FrameError::Incomplete) {
                        r == Ok::<Option<Request>, Error>(None)
                    } else {
                        r == Err::<Option<Request>, Error>(e)
                    }
                },
                Ok(fv) => {
                    &&& spec_buffered(*final(buffer)) == b.skip(fv.total_frame_length as int)
                    &&& (match spec_frame_to_request(fv) {
                        Ok(rv) => r matches Ok(Some(req)) && req@ == rv,
                        Err(e) => r == Err::<Option<Request>, Error>(e),
                    })
                },
            }
        }),
{
    let parsed = parse_request_frame(buffer_bytes(buffer));
    match parsed {
        Err(e) => {
            if e.is_incomplete_frame() {
                Ok(None)
            } else {
                Err(e)
            }
        },
        Ok(frame) => {
            let n = frame.header.total_frame_length as usize;
            buffer_advance(buffer, n);
            match Request::from_frame(frame) {
                Ok(req) => Ok(Some(req)),
                Err(e) => Err(e),
            }
        },
    }
}

/// Try to take one response from the head of the buffer, in the same way.
pub fn read_response(buffer: &mut BytesMut) -> (r: Result<Option<Response>, Error>)
    ensures
        ({
            let b = spec_buffered(*old(buffer));
            match spec_decode_response(b) {
                Err(e) => {
                    &&& spec_buffered(*final(buffer)) == b
                    &&& if e == Error::Frame(crate::error::FrameError::Incomplete) {
                        r == Ok::<Option<Response>, Error>(None)
                    } else {
                        r == Err::<Option<Response>, Error>(e)
                    }
                },
                Ok(fv) => {
                    &&& spec_buffered(*final(buffer)) == b.skip(fv.total_frame_length as int)
                    &&& (match spec_frame_to_response(fv) {
                        Ok(rv) => r matches Ok(Some(resp)) && resp@ == rv,
                        Err(e) => r == Err::<Option<Response>, Error>(e),
                    })
                },
            }
        }),
{
    let parsed = parse_response_frame(buffer_bytes(buffer));
    match parsed {
        Err(e) => {
            if e.is_incomplete_frame() {
                Ok(None)
            } else {
                Err(e)
            }
        },
        Ok(frame) => {
            let n = frame.header.total_frame_length as usize;
            buffer_advance(buffer, n);
            match Response::from_frame(frame) {
                Ok(resp) => Ok(Some(resp)),
                Err(e) => Err(e),
            }
        },
    }
}

} // verus!
