//! Requests of the cache protocol and their mapping to request frames.

use vstd::prelude::*;
use crate::domain::{Key, TTLSinceUnixEpochInMillis, Value, MAX_KEY_LENGTH, MAX_VALUE_LENGTH};
use crate::error::{Error, Parse};
use crate::frame::{spec_request_frame_bytes, RequestFrame, RequestFrameV};
use crate::frame::header::HEADER_SIZE_BYTES;
use crate::parsing::{lemma_request_encode_decode, spec_decode_request};
use crate::primitives::OpCode;

verus! {

/// One operation asked of the cache. `Put` stores a value under a key that
/// must not exist yet, with an optional absolute expiry.
#[derive(Debug, PartialEq)]
pub enum Request {
    Get(Key),
    Put { key: Key, value: Value, ttl_since_unix_epoch_in_millis: Option<u128> },
    Delete(Key),
    Flush,
}

/// Mathematical image of a request: payloads as byte sequences.
#[verifier::ext_equal]
pub ghost enum RequestV {
    Get { key: Seq<u8> },
    Put { key: Seq<u8>, value: Seq<u8>, ttl: Option<u128> },
    Delete { key: Seq<u8> },
    Flush,
}

impl View for Request {
    type V = RequestV;

    open spec fn view(&self) -> RequestV {
        match self {
            Request::Get(key) => RequestV::Get { key: key@ },
            Request::Put { key, value, ttl_since_unix_epoch_in_millis } => RequestV::Put {
                key: key@,
                value: value@,
                ttl: *ttl_since_unix_epoch_in_millis,
            },
            Request::Delete(key) => RequestV::Delete { key: key@ },
            Request::Flush => RequestV::Flush,
        }
    }
}

impl RequestV {
    /// The requests the wire can carry faithfully: keys and values are
    /// non-empty and within bounds, and the TTL never equals the zero
    /// sentinel that stands for "no TTL".
    pub open spec fn encodable(self) -> bool {
        match self {
            RequestV::Get { key } => 0 < key.len() <= MAX_KEY_LENGTH as int,
            RequestV::Put { key, value, ttl } => 0 < key.len() <= MAX_KEY_LENGTH as int && 0
                < value.len() <= MAX_VALUE_LENGTH as int && (ttl matches Some(t) ==> t != 0),
            RequestV::Delete { key } => 0 < key.len() <= MAX_KEY_LENGTH as int,
            RequestV::Flush => true,
        }
    }
}

/// The frame that carries a request.
pub open spec fn spec_request_to_frame(r: RequestV) -> RequestFrameV {
    match r {
        RequestV::Get { key } => RequestFrameV {
            op_code: OpCode::Get,
            key_length: key.len() as u8,
            ttl: 0,
            total_frame_length: (HEADER_SIZE_BYTES as int + key.len()) as u32,
            key,
            value: Seq::empty(),
        },
        RequestV::Put { key, value, ttl } => RequestFrameV {
            op_code: OpCode::Put,
            key_length: key.len() as u8,
            ttl: (match ttl {
                Option::Some(t) => t,
                Option::None => 0u128,
            }),
            total_frame_length: (HEADER_SIZE_BYTES as int + key.len() + value.len()) as u32,
            key,
            value,
        },
        RequestV::Delete { key } => RequestFrameV {
            op_code: OpCode::Delete,
            key_length: key.len() as u8,
            ttl: 0,
            total_frame_length: (HEADER_SIZE_BYTES as int + key.len()) as u32,
            key,
            value: Seq::empty(),
        },
        RequestV::Flush => RequestFrameV {
            op_code: OpCode::Flush,
            key_length: 0,
            ttl: 0,
            total_frame_length: HEADER_SIZE_BYTES as u32,
            key: Seq::empty(),
            value: Seq::empty(),
        },
    }
}

/// The request a frame stands for, or the structural rule it breaks: `Put`
/// needs both key and value, `Get` and `Delete` a key and no value, `Flush`
/// neither. An empty payload and an absent one are the same on the wire.
pub open spec fn spec_frame_to_request(f: RequestFrameV) -> Result<RequestV, Error> {
    match f.op_code {
        OpCode::Put => if f.key.len() == 0 {
            Err(Error::Parse(Parse::KeyMissing))
        } else if f.value.len() == 0 {
            Err(Error::Parse(Parse::ValueMissing))
        } else {
            Ok(
                RequestV::Put {
                    key: f.key,
                    value: f.value,
                    ttl: if f.ttl == 0 {
                        Option::None
                    } else {
                        Option::Some(f.ttl)
                    },
                },
            )
        },
        OpCode::Get => if f.value.len() > 0 {
            Err(Error::Parse(Parse::UnexpectedValue))
        } else if f.key.len() == 0 {
            Err(Error::Parse(Parse::KeyMissing))
        } else {
            Ok(RequestV::Get { key: f.key })
        },
        OpCode::Delete => if f.value.len() > 0 {
            Err(Error::Parse(Parse::UnexpectedValue))
        } else if f.key.len() == 0 {
            Err(Error::Parse(Parse::KeyMissing))
        } else {
            Ok(RequestV::Delete { key: f.key })
        },
        OpCode::Flush => if f.key.len() > 0 {
            Err(Error::Parse(Parse::UnexpectedKey))
        } else if f.value.len() > 0 {
            Err(Error::Parse(Parse::UnexpectedValue))
        } else {
            Ok(RequestV::Flush)
        },
    }
}

/// The request a frame's payload fields stand for, judged by presence rather
/// than emptiness. On normalized frames — the only ones the decoder produces
/// — this agrees with [`spec_frame_to_request`].
pub open spec fn spec_request_of_frame_parts(f: RequestFrame) -> Result<Request, Error> {
    match f.header.op_code {
        OpCode::Put => match (f.key, f.value) {
            (Option::Some(k), Option::Some(v)) => Ok(
                Request::Put {
                    key: k,
                    value: v,
                    ttl_since_unix_epoch_in_millis:
                        f.header.ttl_since_unix_epoch_in_millis.spec_ttl(),
                },
            ),
            (Option::None, _) => Err(Error::Parse(Parse::KeyMissing)),
            (Option::Some(_), Option::None) => Err(Error::Parse(Parse::ValueMissing)),
        },
        OpCode::Get => if f.value is Some {
            Err(Error::Parse(Parse::UnexpectedValue))
        } else {
            match f.key {
                Option::Some(k) => Ok(Request::Get(k)),
                Option::None => Err(Error::Parse(Parse::KeyMissing)),
            }
        },
        OpCode::Delete => if f.value is Some {
            Err(Error::Parse(Parse::UnexpectedValue))
        } else {
            match f.key {
                Option::Some(k) => Ok(Request::Delete(k)),
                Option::None => Err(Error::Parse(Parse::KeyMissing)),
            }
        },
        OpCode::Flush => if f.key is Some {
            Err(Error::Parse(Parse::UnexpectedKey))
        } else if f.value is Some {
            Err(Error::Parse(Parse::UnexpectedValue))
        } else {
            Ok(Request::Flush)
        },
    }
}

/// On a normalized frame, judging payloads by presence or by emptiness gives
/// the same request.
pub proof fn lemma_request_of_frame_agrees(f: RequestFrame)
    requires
        f.normalized(),
    ensures
        match (spec_request_of_frame_parts(f), spec_frame_to_request(f@)) {
            (Ok(req), Ok(rv)) => req@ == rv,
            (Err(e1), Err(e2)) => e1 == e2,
            _ => false,
        },
{
    match (spec_request_of_frame_parts(f), spec_frame_to_request(f@)) {
        (Ok(req), Ok(rv)) => {
            assert(req@ =~= rv);
        },
        (Err(e1), Err(e2)) => {
        },
        _ => {
            assert(false);
        },
    }
}

impl Request {
    /// The frame that carries this request on the wire.
    pub fn into_frame(self) -> (f: RequestFrame)
        ensures
            f@ == spec_request_to_frame(self@),
            f@.wf(),
    {
        let ghost rv = self@;
        let (op_code, ttl, key, value) = match self {
            Request::Get(key) => (OpCode::Get, Option::None, Option::Some(key), Option::None),
            Request::Put { key, value, ttl_since_unix_epoch_in_millis } => (
                OpCode::Put,
                ttl_since_unix_epoch_in_millis,
                Option::Some(key),
                Option::Some(value),
            ),
            Request::Delete(key) => (OpCode::Delete, Option::None, Option::Some(key), Option::None),
            Request::Flush => (OpCode::Flush, Option::None, Option::None, Option::None),
        };
        let ttl = TTLSinceUnixEpochInMillis::parse(ttl);
        let f = match RequestFrame::new(op_code, ttl, key, value) {
            Ok(f) => f,
            Err(_) => unreached(),
        };
        proof {
            assert(f@ =~= spec_request_to_frame(rv));
        }
        f
    }

    /// Judge a frame against the structural rules and return the request it
    /// carries.
    pub fn from_frame(frame: RequestFrame) -> (r: Result<Self, Error>)
        ensures
            r == spec_request_of_frame_parts(frame),
            frame.normalized() ==> (match (r, spec_frame_to_request(frame@)) {
                (Ok(req), Ok(rv)) => req@ == rv,
                (Err(e1), Err(e2)) => e1 == e2,
                _ => false,
            }),
    {
        proof {
            if frame.normalized() {
                lemma_request_of_frame_agrees(frame);
            }
        }
        match frame.header.op_code {
            OpCode::Put => match (frame.key, frame.value) {
                (Option::Some(k), Option::Some(v)) => Ok(
                    Request::Put {
                        key: k,
                        value: v,
                        ttl_since_unix_epoch_in_millis:
                            frame.header.ttl_since_unix_epoch_in_millis.into_ttl(),
                    },
                ),
                (Option::None, _) => Err(Error::Parse(Parse::KeyMissing)),
                (Option::Some(_), Option::None) => Err(Error::Parse(Parse::ValueMissing)),
            },
            OpCode::Get => {
                if frame.value.is_some() {
                    return Err(Error::Parse(Parse::UnexpectedValue));
                }
                match frame.key {
                    Option::Some(k) => Ok(Request::Get(k)),
                    Option::None => Err(Error::Parse(Parse::KeyMissing)),
                }
            },
            OpCode::Delete => {
                if frame.value.is_some() {
                    return Err(Error::Parse(Parse::UnexpectedValue));
                }
                match frame.key {
                    Option::Some(k) => Ok(Request::Delete(k)),
                    Option::None => Err(Error::Parse(Parse::KeyMissing)),
                }
            },
            OpCode::Flush => {
                if frame.key.is_some() {
                    return Err(Error::Parse(Parse::UnexpectedKey));
                }
                if frame.value.is_some() {
                    return Err(Error::Parse(Parse::UnexpectedValue));
                }
                Ok(Request::Flush)
            },
        }
    }
}

/// Round trip of the request codec: for every encodable request, the frame
/// that carries it is well formed, decoding its encoding returns the frame,
/// and reading the frame back returns the request.
pub proof fn lemma_request_round_trip(r: RequestV)
    requires
        r.encodable(),
    ensures
        spec_request_to_frame(r).wf(),
        spec_decode_request(spec_request_frame_bytes(spec_request_to_frame(r)))
            == Ok::<RequestFrameV, Error>(spec_request_to_frame(r)),
        spec_frame_to_request(spec_request_to_frame(r)) == Ok::<RequestV, Error>(r),
{
    let f = spec_request_to_frame(r);
    assert(f.wf());
    lemma_request_encode_decode(f);
    assert(spec_frame_to_request(f) matches Ok(rv) && rv =~= r);
}

} // verus!
