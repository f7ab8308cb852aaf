//! The byte-level decoder of the wire format, with the laws that tie it to
//! the encoder: encoding then decoding returns the frame, decoding then
//! encoding returns the consumed bytes, and no proper prefix of a frame
//! decodes to anything but `Incomplete`.

use vstd::prelude::*;
use crate::domain::{Key, TTLSinceUnixEpochInMillis, Value, MAX_VALUE_LENGTH};
use crate::endian::{
    lemma_u128_be_inverse, lemma_u128_be_round_trip, lemma_u32_be_inverse, lemma_u32_be_round_trip,
    read_u128_be, read_u32_be, u128_of_be_bytes, u32_of_be_bytes,
};
use crate::error::{Error, FrameError};
use crate::frame::header::{RequestHeader, ResponseHeader, HEADER_SIZE_BYTES};
use crate::frame::{
    spec_request_frame_bytes, spec_response_frame_bytes, RequestFrame, RequestFrameV,
    ResponseFrame, ResponseFrameV,
};
use crate::primitives::{spec_op_code_of_byte, spec_status_code_of_byte, OpCode, StatusCode};

verus! {

/// The declared total length of the frame at the head of `b`.
pub open spec fn spec_total_of(b: Seq<u8>) -> u32
    recommends
        b.len() >= HEADER_SIZE_BYTES as int,
{
    u32_of_be_bytes(b.subrange(19, 23))
}

/// The declared key length of the frame at the head of `b`.
pub open spec fn spec_key_length_of(b: Seq<u8>) -> u8
    recommends
        b.len() >= HEADER_SIZE_BYTES as int,
{
    b[2]
}

/// More bytes are needed before the head of `b` can be judged: the header is
/// short, the declared total has not arrived, or the declared total never
/// reaches past the header and key, so that no read can complete it.
pub open spec fn spec_frame_incomplete(b: Seq<u8>) -> bool {
    ||| b.len() < HEADER_SIZE_BYTES as int
    ||| b.len() < spec_total_of(b) as int
    ||| (spec_total_of(b) as int) < HEADER_SIZE_BYTES as int + spec_key_length_of(b) as int
}

/// What decoding a request from the head of `b` yields.
pub open spec fn spec_decode_request(b: Seq<u8>) -> Result<RequestFrameV, Error> {
    if spec_frame_incomplete(b) {
        Err(Error::Frame(FrameError::Incomplete))
    } else if spec_op_code_of_byte(b[0]) is Err {
        Err(Error::Frame(FrameError::InvalidOpCode))
    } else if (spec_total_of(b) as int) - (HEADER_SIZE_BYTES as int) - (spec_key_length_of(
        b,
    ) as int) > MAX_VALUE_LENGTH as int {
        Err(Error::Frame(FrameError::ValueTooLong))
    } else {
        Ok(
            RequestFrameV {
                op_code: spec_op_code_of_byte(b[0]) ->Ok_0,
                key_length: spec_key_length_of(b),
                ttl: u128_of_be_bytes(b.subrange(3, 19)),
                total_frame_length: spec_total_of(b),
                key: b.subrange(
                    HEADER_SIZE_BYTES as int,
                    HEADER_SIZE_BYTES as int + spec_key_length_of(b) as int,
                ),
                value: b.subrange(
                    HEADER_SIZE_BYTES as int + spec_key_length_of(b) as int,
                    spec_total_of(b) as int,
                ),
            },
        )
    }
}

/// What decoding a response from the head of `b` yields.
pub open spec fn spec_decode_response(b: Seq<u8>) -> Result<ResponseFrameV, Error> {
    if spec_frame_incomplete(b) {
        Err(Error::Frame(FrameError::Incomplete))
    } else if spec_op_code_of_byte(b[0]) is Err {
        Err(Error::Frame(FrameError::InvalidOpCode))
    } else if spec_status_code_of_byte(b[1]) is Err {
        Err(Error::Frame(FrameError::InvalidStatusCode))
    } else if (spec_total_of(b) as int) - (HEADER_SIZE_BYTES as int) - (spec_key_length_of(
        b,
    ) as int) > MAX_VALUE_LENGTH as int {
        Err(Error::Frame(FrameError::ValueTooLong))
    } else {
        Ok(
            ResponseFrameV {
                op_code: spec_op_code_of_byte(b[0]) ->Ok_0,
                status: spec_status_code_of_byte(b[1]) ->Ok_0,
                key_length: spec_key_length_of(b),
                ttl: u128_of_be_bytes(b.subrange(3, 19)),
                total_frame_length: spec_total_of(b),
                key: b.subrange(
                    HEADER_SIZE_BYTES as int,
                    HEADER_SIZE_BYTES as int + spec_key_length_of(b) as int,
                ),
                value: b.subrange(
                    HEADER_SIZE_BYTES as int + spec_key_length_of(b) as int,
                    spec_total_of(b) as int,
                ),
            },
        )
    }
}

/// Decode one request frame from the head of `input`.
pub fn parse_request_frame(input: &[u8]) -> (r: Result<RequestFrame, Error>)
    ensures
        match spec_decode_request(input@) {
            Ok(fv) => r matches Ok(f) && f@ == fv && f@.wf() && f.normalized(),
            Err(e) => r == Err::<RequestFrame, Error>(e),
        },
{
    let b = input;
    if b.len() < HEADER_SIZE_BYTES as usize {
        return Err(Error::Frame(FrameError::Incomplete));
    }
    let total_frame_length = read_u32_be(b, 19);
    if b.len() < total_frame_length as usize {
        return Err(Error::Frame(FrameError::Incomplete));
    }
    let key_length = b[2];
    if total_frame_length < HEADER_SIZE_BYTES as u32 + key_length as u32 {
        return Err(Error::Frame(FrameError::Incomplete));
    }
    let op_code = OpCode::try_from_u8(b[0])?;
    let value_length = total_frame_length - HEADER_SIZE_BYTES as u32 - key_length as u32;
    if value_length > MAX_VALUE_LENGTH {
        return Err(Error::Frame(FrameError::ValueTooLong));
    }
    let ttl = TTLSinceUnixEpochInMillis::parse(Some(read_u128_be(b, 3)));
    let key_end = HEADER_SIZE_BYTES as usize + key_length as usize;
    let key = if key_length == 0 {
        None
    } else {
        Some(Key::from_bytes(crate::domain::copy_bytes(&b[HEADER_SIZE_BYTES as usize..key_end])))
    };
    let value = if value_length == 0 {
        None
    } else {
        Some(
            Value::from_bytes(
                crate::domain::copy_bytes(&b[key_end..total_frame_length as usize]),
            ),
        )
    };
    let header = RequestHeader {
        op_code,
        key_length,
        ttl_since_unix_epoch_in_millis: ttl,
        total_frame_length,
    };
    let f = RequestFrame { header, key, value };
    proof {
        assert(f@ =~= spec_decode_request(input@) ->Ok_0);
    }
    Ok(f)
}

/// Decode one response frame from the head of `input`.
pub fn parse_response_frame(input: &[u8]) -> (r: Result<ResponseFrame, Error>)
    ensures
        match spec_decode_response(input@) {
            Ok(fv) => r matches Ok(f) && f@ == fv && f@.wf() && f.normalized(),
            Err(e) => r == Err::<ResponseFrame, Error>(e),
        },
{
    let b = input;
    if b.len() < HEADER_SIZE_BYTES as usize {
        return Err(Error::Frame(FrameError::Incomplete));
    }
    let total_frame_length = read_u32_be(b, 19);
    if b.len() < total_frame_length as usize {
        return Err(Error::Frame(FrameError::Incomplete));
    }
    let key_length = b[2];
    if total_frame_length < HEADER_SIZE_BYTES as u32 + key_length as u32 {
        return Err(Error::Frame(FrameError::Incomplete));
    }
    let op_code = OpCode::try_from_u8(b[0])?;
    let status = StatusCode::try_from_u8(b[1])?;
    let value_length = total_frame_length - HEADER_SIZE_BYTES as u32 - key_length as u32;
    if value_length > MAX_VALUE_LENGTH {
        return Err(Error::Frame(FrameError::ValueTooLong));
    }
    let ttl = TTLSinceUnixEpochInMillis::parse(Some(read_u128_be(b, 3)));
    let key_end = HEADER_SIZE_BYTES as usize + key_length as usize;
    let key = if key_length == 0 {
        None
    } else {
        Some(Key::from_bytes(crate::domain::copy_bytes(&b[HEADER_SIZE_BYTES as usize..key_end])))
    };
    let value = if value_length == 0 {
        None
    } else {
        Some(
            Value::from_bytes(
                crate::domain::copy_bytes(&b[key_end..total_frame_length as usize]),
            ),
        )
    };
    let header = ResponseHeader {
        op_code,
        status,
        key_length,
        ttl_since_unix_epoch_in_millis: ttl,
        total_frame_length,
    };
    let f = ResponseFrame { header, key, value };
    proof {
        assert(f@ =~= spec_decode_response(input@) ->Ok_0);
    }
    Ok(f)
}

/// Encoding a well-formed request frame and decoding the bytes returns the
/// frame.
pub proof fn lemma_request_encode_decode(f: RequestFrameV)
    requires
        f.wf(),
    ensures
        spec_decode_request(spec_request_frame_bytes(f)) == Ok::<RequestFrameV, Error>(f),
{
    let b = spec_request_frame_bytes(f);
    assert(b.subrange(19, 23) =~= crate::endian::be_bytes_of_u32(f.total_frame_length));
    lemma_u32_be_round_trip(f.total_frame_length);
    assert(b.subrange(3, 19) =~= crate::endian::be_bytes_of_u128(f.ttl));
    lemma_u128_be_round_trip(f.ttl);
    assert(!spec_frame_incomplete(b));
    assert(b[0] == f.op_code.spec_byte());
    crate::primitives::lemma_op_code_byte_round_trip(f.op_code);
    let klen = f.key.len() as int;
    assert(b.subrange(23, 23 + klen) =~= f.key);
    assert(b.subrange(23 + klen, f.total_frame_length as int) =~= f.value);
    assert(spec_decode_request(b) ->Ok_0 =~= f);
}

/// Encoding a well-formed response frame and decoding the bytes returns the
/// frame.
pub proof fn lemma_response_encode_decode(f: ResponseFrameV)
    requires
        f.wf(),
    ensures
        spec_decode_response(spec_response_frame_bytes(f)) == Ok::<ResponseFrameV, Error>(f),
{
    let b = spec_response_frame_bytes(f);
    assert(b.subrange(19, 23) =~= crate::endian::be_bytes_of_u32(f.total_frame_length));
    lemma_u32_be_round_trip(f.total_frame_length);
    assert(b.subrange(3, 19) =~= crate::endian::be_bytes_of_u128(f.ttl));
    lemma_u128_be_round_trip(f.ttl);
    assert(!spec_frame_incomplete(b));
    assert(b[0] == f.op_code.spec_byte());
    assert(b[1] == f.status.spec_byte());
    crate::primitives::lemma_op_code_byte_round_trip(f.op_code);
    crate::primitives::lemma_status_code_byte_round_trip(f.status);
    let klen = f.key.len() as int;
    assert(b.subrange(23, 23 + klen) =~= f.key);
    assert(b.subrange(23 + klen, f.total_frame_length as int) =~= f.value);
    assert(spec_decode_response(b) ->Ok_0 =~= f);
}

/// A decoded request frame is well formed, and re-encoding it reproduces
/// exactly the bytes that were consumed, provided the ignored padding byte
/// was zero.
pub proof fn lemma_request_decode_encode(b: Seq<u8>)
    requires
        spec_decode_request(b) is Ok,
    ensures
        spec_decode_request(b) ->Ok_0.wf(),
        b[1] == 0 ==> spec_request_frame_bytes(spec_decode_request(b) ->Ok_0) == b.take(
            spec_total_of(b) as int,
        ),
{
    let f = spec_decode_request(b) ->Ok_0;
    assert(f.wf());
    if b[1] == 0 {
        lemma_u32_be_inverse(b.subrange(19, 23));
        lemma_u128_be_inverse(b.subrange(3, 19));
        crate::primitives::lemma_op_code_byte_inverse(b[0]);
        assert(spec_request_frame_bytes(f) =~= b.take(spec_total_of(b) as int));
    }
}

/// A decoded response frame is well formed, and re-encoding it reproduces
/// exactly the bytes that were consumed.
pub proof fn lemma_response_decode_encode(b: Seq<u8>)
    requires
        spec_decode_response(b) is Ok,
    ensures
        spec_decode_response(b) ->Ok_0.wf(),
        spec_response_frame_bytes(spec_decode_response(b) ->Ok_0) == b.take(
            spec_total_of(b) as int,
        ),
{
    let f = spec_decode_response(b) ->Ok_0;
    assert(f.wf());
    lemma_u32_be_inverse(b.subrange(19, 23));
    lemma_u128_be_inverse(b.subrange(3, 19));
    crate::primitives::lemma_op_code_byte_inverse(b[0]);
    crate::primitives::lemma_status_code_byte_inverse(b[1]);
    assert(spec_response_frame_bytes(f) =~= b.take(spec_total_of(b) as int));
}

/// Decoding looks only at the frame's own bytes: the head frame of `b` and of
/// any extension of `b` agree once the frame is complete.
pub proof fn lemma_decode_ignores_tail(b: Seq<u8>)
    requires
        !spec_frame_incomplete(b),
    ensures
        spec_decode_request(b.take(spec_total_of(b) as int)) == spec_decode_request(b),
        spec_decode_response(b.take(spec_total_of(b) as int)) == spec_decode_response(b),
{
    let n = spec_total_of(b) as int;
    let p = b.take(n);
    assert(p.subrange(19, 23) =~= b.subrange(19, 23));
    assert(p.subrange(3, 19) =~= b.subrange(3, 19));
    assert(!spec_frame_incomplete(p));
    let klen = spec_key_length_of(b) as int;
    assert(p.subrange(23, 23 + klen) =~= b.subrange(23, 23 + klen));
    assert(p.subrange(23 + klen, n) =~= b.subrange(23 + klen, n));
    if spec_decode_request(b) is Ok {
        assert(spec_decode_request(p) ->Ok_0 =~= spec_decode_request(b) ->Ok_0);
    }
    if spec_decode_response(b) is Ok {
        assert(spec_decode_response(p) ->Ok_0 =~= spec_decode_response(b) ->Ok_0);
    }
}

/// Every proper prefix of a complete frame decodes to `Incomplete`, for
/// requests and responses alike.
pub proof fn lemma_prefix_incomplete(b: Seq<u8>, n: int)
    requires
        !spec_frame_incomplete(b),
        0 <= n < spec_total_of(b) as int,
    ensures
        spec_frame_incomplete(b.take(n)),
        spec_decode_request(b.take(n)) == Err::<RequestFrameV, Error>(
            Error::Frame(FrameError::Incomplete),
        ),
        spec_decode_response(b.take(n)) == Err::<ResponseFrameV, Error>(
            Error::Frame(FrameError::Incomplete),
        ),
{
    let p = b.take(n);
    if n >= HEADER_SIZE_BYTES as int {
        assert(p.subrange(19, 23) =~= b.subrange(19, 23));
        assert(spec_total_of(p) == spec_total_of(b));
    }
}

} // verus!
