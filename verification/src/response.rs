//! Responses of the cache protocol, their mapping to response frames, and
//! the client-facing shape of a GET answer.

use vstd::prelude::*;
use crate::domain::{
    lossy_utf8, Key, TTLSinceUnixEpochInMillis, Value, MAX_KEY_LENGTH, MAX_VALUE_LENGTH,
};
use crate::error::{ClientError, Error, Parse};
use crate::frame::{spec_response_frame_bytes, ResponseFrame, ResponseFrameV};
use crate::frame::header::HEADER_SIZE_BYTES;
use crate::parsing::{lemma_response_encode_decode, spec_decode_response};
use crate::primitives::{OpCode, StatusCode};

verus! {

/// One answer of the cache: a status and the body of the operation answered.
#[derive(Debug, PartialEq)]
pub struct Response {
    pub status: StatusCode,
    pub body: ResponseBody,
}

/// The body of a response; only GET answers carry a payload.
#[derive(Debug, PartialEq)]
pub enum ResponseBody {
    Get(Option<ResponseBodyGet>),
    Put,
    Delete,
    Flush,
}

/// Payload of a successful GET: the key echoed back, the stored value and
/// its optional expiry.
#[derive(Debug, PartialEq)]
pub struct ResponseBodyGet {
    pub key: Key,
    pub value: Value,
    pub ttl_since_unix_epoch_in_millis: Option<u128>,
}

/// Mathematical image of a response.
#[verifier::ext_equal]
pub ghost struct ResponseV {
    pub status: StatusCode,
    pub body: ResponseBodyV,
}

/// Mathematical image of a response body.
#[verifier::ext_equal]
pub ghost enum ResponseBodyV {
    Get(Option<ResponseBodyGetV>),
    Put,
    Delete,
    Flush,
}

/// Mathematical image of a GET payload.
#[verifier::ext_equal]
pub ghost struct ResponseBodyGetV {
    pub key: Seq<u8>,
    pub value: Seq<u8>,
    pub ttl: Option<u128>,
}

impl View for ResponseBodyGet {
    type V = ResponseBodyGetV;

    open spec fn view(&self) -> ResponseBodyGetV {
        ResponseBodyGetV {
            key: self.key@,
            value: self.value@,
            ttl: self.ttl_since_unix_epoch_in_millis,
        }
    }
}

impl View for Response {
    type V = ResponseV;

    open spec fn view(&self) -> ResponseV {
        ResponseV {
            status: self.status,
            body: match self.body {
                ResponseBody::Get(Option::Some(b)) => ResponseBodyV::Get(Option::Some(b@)),
                ResponseBody::Get(Option::None) => ResponseBodyV::Get(Option::None),
                ResponseBody::Put => ResponseBodyV::Put,
                ResponseBody::Delete => ResponseBodyV::Delete,
                ResponseBody::Flush => ResponseBodyV::Flush,
            },
        }
    }
}

impl ResponseV {
    /// The responses the wire can carry faithfully. A GET payload is within
    /// bounds, non-empty, and never holds the zero TTL sentinel; an empty
    /// GET body cannot travel under a success status, since success makes
    /// the payload mandatory.
    pub open spec fn encodable(self) -> bool {
        match self.body {
            ResponseBodyV::Get(Option::Some(b)) => 0 < b.key.len() <= MAX_KEY_LENGTH as int && 0
                < b.value.len() <= MAX_VALUE_LENGTH as int && (b.ttl matches Some(t) ==> t != 0),
            ResponseBodyV::Get(Option::None) => self.status != StatusCode::Success,
            _ => true,
        }
    }
}

/// The frame that carries a response.
pub open spec fn spec_response_to_frame(r: ResponseV) -> ResponseFrameV {
    match r.body {
        ResponseBodyV::Get(Option::Some(b)) => ResponseFrameV {
            op_code: OpCode::Get,
            status: r.status,
            key_length: b.key.len() as u8,
            ttl: (match b.ttl {
                Option::Some(t) => t,
                Option::None => 0u128,
            }),
            total_frame_length: (HEADER_SIZE_BYTES as int + b.key.len() + b.value.len()) as u32,
            key: b.key,
            value: b.value,
        },
        ResponseBodyV::Get(Option::None) => empty_response_frame(OpCode::Get, r.status),
        ResponseBodyV::Put => empty_response_frame(OpCode::Put, r.status),
        ResponseBodyV::Delete => empty_response_frame(OpCode::Delete, r.status),
        ResponseBodyV::Flush => empty_response_frame(OpCode::Flush, r.status),
    }
}

/// A response frame with no payload.
pub open spec fn empty_response_frame(op_code: OpCode, status: StatusCode) -> ResponseFrameV {
    ResponseFrameV {
        op_code,
        status,
        key_length: 0,
        ttl: 0,
        total_frame_length: HEADER_SIZE_BYTES as u32,
        key: Seq::empty(),
        value: Seq::empty(),
    }
}

/// The response a frame stands for, or the structural rule it breaks. A GET
/// answer needs key and value exactly when its status is success; the other
/// bodies carry no payload. An empty payload and an absent one are the same
/// on the wire.
pub open spec fn spec_frame_to_response(f: ResponseFrameV) -> Result<ResponseV, Error> {
    match f.op_code {
        OpCode::Get => if f.key.len() > 0 && f.value.len() > 0 {
            Ok(
                ResponseV {
                    status: f.status,
                    body: ResponseBodyV::Get(
                        Option::Some(
                            ResponseBodyGetV {
                                key: f.key,
                                value: f.value,
                                ttl: if f.ttl == 0 {
                                    Option::None
                                } else {
                                    Option::Some(f.ttl)
                                },
                            },
                        ),
                    ),
                },
            )
        } else if f.status == StatusCode::Success {
            if f.key.len() > 0 {
                Err(Error::Parse(Parse::ValueMissing))
            } else if f.value.len() > 0 {
                Err(Error::Parse(Parse::KeyMissing))
            } else {
                Err(Error::Parse(Parse::KeyAndValueMissing))
            }
        } else {
            Ok(ResponseV { status: f.status, body: ResponseBodyV::Get(Option::None) })
        },
        OpCode::Put => spec_empty_body_response(f, ResponseBodyV::Put),
        OpCode::Delete => spec_empty_body_response(f, ResponseBodyV::Delete),
        OpCode::Flush => spec_empty_body_response(f, ResponseBodyV::Flush),
    }
}

/// A payload-free response, provided the frame indeed carries no payload.
pub open spec fn spec_empty_body_response(f: ResponseFrameV, body: ResponseBodyV) -> Result<
    ResponseV,
    Error,
> {
    if f.key.len() > 0 {
        Err(Error::Parse(Parse::UnexpectedKey))
    } else if f.value.len() > 0 {
        Err(Error::Parse(Parse::UnexpectedValue))
    } else {
        Ok(ResponseV { status: f.status, body })
    }
}

/// The response a frame's payload fields stand for, judged by presence
/// rather than emptiness. On normalized frames — the only ones the decoder
/// produces — this agrees with [`spec_frame_to_response`].
pub open spec fn spec_response_of_frame_parts(f: ResponseFrame) -> Result<Response, Error> {
    match f.header.op_code {
        OpCode::Get => match (f.key, f.value) {
            (Option::Some(k), Option::Some(v)) => Ok(
                Response {
                    status: f.header.status,
                    body: ResponseBody::Get(
                        Option::Some(
                            ResponseBodyGet {
                                key: k,
                                value: v,
                                ttl_since_unix_epoch_in_millis:
                                    f.header.ttl_since_unix_epoch_in_millis.spec_ttl(),
                            },
                        ),
                    ),
                },
            ),
            (Option::Some(_), Option::None) => if f.header.status == StatusCode::Success {
                Err(Error::Parse(Parse::ValueMissing))
            } else {
                Ok(Response { status: f.header.status, body: ResponseBody::Get(Option::None) })
            },
            (Option::None, Option::Some(_)) => if f.header.status == StatusCode::Success {
                Err(Error::Parse(Parse::KeyMissing))
            } else {
                Ok(Response { status: f.header.status, body: ResponseBody::Get(Option::None) })
            },
            (Option::None, Option::None) => if f.header.status == StatusCode::Success {
                Err(Error::Parse(Parse::KeyAndValueMissing))
            } else {
                Ok(Response { status: f.header.status, body: ResponseBody::Get(Option::None) })
            },
        },
        OpCode::Put => spec_empty_body_response_parts(f, ResponseBody::Put),
        OpCode::Delete => spec_empty_body_response_parts(f, ResponseBody::Delete),
        OpCode::Flush => spec_empty_body_response_parts(f, ResponseBody::Flush),
    }
}

/// Presence-based counterpart of [`spec_empty_body_response`].
pub open spec fn spec_empty_body_response_parts(f: ResponseFrame, body: ResponseBody) -> Result<
    Response,
    Error,
> {
    if f.key is Some {
        Err(Error::Parse(Parse::UnexpectedKey))
    } else if f.value is Some {
        Err(Error::Parse(Parse::UnexpectedValue))
    } else {
        Ok(Response { status: f.header.status, body })
    }
}

/// On a normalized frame, judging payloads by presence or by emptiness gives
/// the same response.
pub proof fn lemma_response_of_frame_agrees(f: ResponseFrame)
    requires
        f.normalized(),
    ensures
        match (spec_response_of_frame_parts(f), spec_frame_to_response(f@)) {
            (Ok(resp), Ok(rv)) => resp@ == rv,
            (Err(e1), Err(e2)) => e1 == e2,
            _ => false,
        },
{
    match (spec_response_of_frame_parts(f), spec_frame_to_response(f@)) {
        (Ok(resp), Ok(rv)) => {
            assert(resp@ =~= rv);
        },
        (Err(e1), Err(e2)) => {
        },
        _ => {
            assert(false);
        },
    }
}

impl Response {
    pub fn new(status: StatusCode, body: ResponseBody) -> (r: Self)
        ensures
            r.status == status && r.body == body,
    {
        Self { status, body }
    }

    /// The frame that carries this response on the wire.
    pub fn into_frame(self) -> (f: ResponseFrame)
        ensures
            f@ == spec_response_to_frame(self@),
            f@.wf(),
    {
        let ghost rv = self@;
        let status = self.status;
        let (op_code, key, value, ttl) = match self.body {
            ResponseBody::Get(Option::Some(b)) => (
                OpCode::Get,
                Option::Some(b.key),
                Option::Some(b.value),
                b.ttl_since_unix_epoch_in_millis,
            ),
            ResponseBody::Get(Option::None) => (OpCode::Get, Option::None, Option::None, Option::None),
            ResponseBody::Put => (OpCode::Put, Option::None, Option::None, Option::None),
            ResponseBody::Delete => (OpCode::Delete, Option::None, Option::None, Option::None),
            ResponseBody::Flush => (OpCode::Flush, Option::None, Option::None, Option::None),
        };
        let ttl = TTLSinceUnixEpochInMillis::parse(ttl);
        let f = match ResponseFrame::new(op_code, status, ttl, key, value) {
            Ok(f) => f,
            Err(_) => unreached(),
        };
        proof {
            assert(f@ =~= spec_response_to_frame(rv));
        }
        f
    }

    /// Judge a frame against the structural rules and return the response it
    /// carries.
    pub fn from_frame(frame: ResponseFrame) -> (r: Result<Self, Error>)
        ensures
            r == spec_response_of_frame_parts(frame),
            frame.normalized() ==> (match (r, spec_frame_to_response(frame@)) {
                (Ok(resp), Ok(rv)) => resp@ == rv,
                (Err(e1), Err(e2)) => e1 == e2,
                _ => false,
            }),
    {
        proof {
            if frame.normalized() {
                lemma_response_of_frame_agrees(frame);
            }
        }
        let status = frame.header.status;
        match frame.header.op_code {
            OpCode::Get => match (frame.key, frame.value) {
                (Option::Some(k), Option::Some(v)) => Ok(
                    Response {
                        status,
                        body: ResponseBody::Get(
                            Option::Some(
                                ResponseBodyGet {
                                    key: k,
                                    value: v,
                                    ttl_since_unix_epoch_in_millis:
                                        frame.header.ttl_since_unix_epoch_in_millis.into_ttl(),
                                },
                            ),
                        ),
                    },
                ),
                (Option::Some(_), Option::None) => if matches!(status, StatusCode::Success) {
                    Err(Error::Parse(Parse::ValueMissing))
                } else {
                    Ok(Response { status, body: ResponseBody::Get(Option::None) })
                },
                (Option::None, Option::Some(_)) => if matches!(status, StatusCode::Success) {
                    Err(Error::Parse(Parse::KeyMissing))
                } else {
                    Ok(Response { status, body: ResponseBody::Get(Option::None) })
                },
                (Option::None, Option::None) => if matches!(status, StatusCode::Success) {
                    Err(Error::Parse(Parse::KeyAndValueMissing))
                } else {
                    Ok(Response { status, body: ResponseBody::Get(Option::None) })
                },
            },
            OpCode::Put => Self::ensure_key_and_value_are_none(frame, ResponseBody::Put),
            OpCode::Delete => Self::ensure_key_and_value_are_none(frame, ResponseBody::Delete),
            OpCode::Flush => Self::ensure_key_and_value_are_none(frame, ResponseBody::Flush),
        }
    }

    fn ensure_key_and_value_are_none(frame: ResponseFrame, body: ResponseBody) -> (r: Result<Self, Error>)
        ensures
            r == spec_empty_body_response_parts(frame, body),
    {
        if frame.key.is_some() {
            Err(Error::Parse(Parse::UnexpectedKey))
        } else if frame.value.is_some() {
            Err(Error::Parse(Parse::UnexpectedValue))
        } else {
            Ok(Response { status: frame.header.status, body })
        }
    }
}

/// Round trip of the response codec: for every encodable response, the frame
/// that carries it is well formed, decoding its encoding returns the frame,
/// and reading the frame back returns the response.
pub proof fn lemma_response_round_trip(r: ResponseV)
    requires
        r.encodable(),
    ensures
        spec_response_to_frame(r).wf(),
        spec_decode_response(spec_response_frame_bytes(spec_response_to_frame(r)))
            == Ok::<ResponseFrameV, Error>(spec_response_to_frame(r)),
        spec_frame_to_response(spec_response_to_frame(r)) == Ok::<ResponseV, Error>(r),
{
    let f = spec_response_to_frame(r);
    assert(f.wf());
    lemma_response_encode_decode(f);
    assert(spec_frame_to_response(f) matches Ok(rv) && rv =~= r);
}

/// What a GET answer looks like to a caller of the client: the value is
/// absent when the key was not in the cache.
#[derive(Debug, Clone, PartialEq, Eq, Hash)]
pub struct ResponseGet {
    status: StatusCode,
    value: Option<String>,
    ttl_since_unix_epoch_in_millis: Option<u128>,
}

impl ResponseGet {
    pub closed spec fn spec_status(self) -> StatusCode {
        self.status
    }

    pub closed spec fn spec_value(self) -> Option<String> {
        self.value
    }

    pub closed spec fn spec_ttl(self) -> Option<u128> {
        self.ttl_since_unix_epoch_in_millis
    }

    pub fn new(status: StatusCode, value: Option<String>, ttl_since_unix_epoch_in_millis: Option<
        u128,
    >) -> (r: Self)
        ensures
            r.spec_status() == status,
            r.spec_value() == value,
            r.spec_ttl() == ttl_since_unix_epoch_in_millis,
    {
        Self { status, value, ttl_since_unix_epoch_in_millis }
    }

    /// Interpret a response as the answer to a GET. The stored bytes are
    /// rendered as text, with invalid UTF-8 replaced; any body other than a
    /// GET body is a client-side mismatch.
    pub fn from_response(response: Response) -> (r: Result<Self, Error>)
        ensures
            match response.body {
                ResponseBody::Get(Option::Some(b)) => r matches Ok(g) && g.spec_status()
                    == response.status && (g.spec_value() matches Some(s) && s@ == lossy_utf8(b.value@))
                    && g.spec_ttl() == b.ttl_since_unix_epoch_in_millis,
                ResponseBody::Get(Option::None) => r matches Ok(g) && g.spec_status()
                    == response.status && g.spec_value() is None && g.spec_ttl() is None,
                _ => r == Err::<ResponseGet, Error>(Error::Client(ClientError::ExpectedValue)),
            },
    {
        match response.body {
            ResponseBody::Get(maybe_value) => {
                let (value, ttl) = match maybe_value {
                    Option::Some(b) => (
                        Option::Some(b.value.into_inner()),
                        b.ttl_since_unix_epoch_in_millis,
                    ),
                    Option::None => (Option::None, Option::None),
                };
                Ok(ResponseGet::new(response.status, value, ttl))
            },
            _ => Err(Error::Client(ClientError::ExpectedValue)),
        }
    }

    pub fn status(&self) -> (r: StatusCode)
        ensures
            r == self.spec_status(),
    {
        self.status
    }

    pub fn ttl_since_unix_epoch_in_millis(&self) -> (r: Option<u128>)
        ensures
            r == self.spec_ttl(),
    {
        self.ttl_since_unix_epoch_in_millis
    }

    pub fn value(&self) -> (r: Option<&String>)
        ensures
            r is Some <==> self.spec_value() is Some,
            r matches Some(v) ==> self.spec_value() == Some(*v),
    {
        self.value.as_ref()
    }

    pub fn into_value(self) -> (r: Option<String>)
        ensures
            r == self.spec_value(),
    {
        self.value
    }
}

} // verus!
