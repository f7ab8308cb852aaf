//! Request and response frames: header plus optional key and value payloads,
//! and their byte-exact encodings.

pub mod header;

use vstd::prelude::*;
use crate::domain::{Key, TTLSinceUnixEpochInMillis, Value, MAX_VALUE_LENGTH};
use crate::endian::{be_bytes_of_u128, be_bytes_of_u32, push_u128_be, push_u32_be};
use crate::error::Error;
use crate::frame::header::{RequestHeader, ResponseHeader, HEADER_SIZE_BYTES};
use crate::primitives::{OpCode, StatusCode};

verus! {

/// One request as it travels on the wire.
#[derive(Debug, PartialEq)]
pub struct RequestFrame {
    pub header: RequestHeader,
    pub key: Option<Key>,
    pub value: Option<Value>,
}

/// One response as it travels on the wire.
#[derive(Debug, PartialEq)]
pub struct ResponseFrame {
    pub header: ResponseHeader,
    pub key: Option<Key>,
    pub value: Option<Value>,
}

/// Mathematical image of a request frame: payloads as byte sequences. An
/// absent key or value and an empty one have the same image, exactly as they
/// have the same encoding.
#[verifier::ext_equal]
pub ghost struct RequestFrameV {
    pub op_code: OpCode,
    pub key_length: u8,
    pub ttl: u128,
    pub total_frame_length: u32,
    pub key: Seq<u8>,
    pub value: Seq<u8>,
}

/// Mathematical image of a response frame.
#[verifier::ext_equal]
pub ghost struct ResponseFrameV {
    pub op_code: OpCode,
    pub status: StatusCode,
    pub key_length: u8,
    pub ttl: u128,
    pub total_frame_length: u32,
    pub key: Seq<u8>,
    pub value: Seq<u8>,
}

/// The bytes of an optional key.
pub open spec fn spec_key_bytes(key: Option<Key>) -> Seq<u8> {
    match key {
        Option::Some(k) => k@,
        Option::None => Seq::empty(),
    }
}

/// The bytes of an optional value.
pub open spec fn spec_value_bytes(value: Option<Value>) -> Seq<u8> {
    match value {
        Option::Some(v) => v@,
        Option::None => Seq::empty(),
    }
}

impl View for RequestFrame {
    type V = RequestFrameV;

    open spec fn view(&self) -> RequestFrameV {
        RequestFrameV {
            op_code: self.header.op_code,
            key_length: self.header.key_length,
            ttl: self.header.ttl_since_unix_epoch_in_millis@,
            total_frame_length: self.header.total_frame_length,
            key: spec_key_bytes(self.key),
            value: spec_value_bytes(self.value),
        }
    }
}

impl View for ResponseFrame {
    type V = ResponseFrameV;

    open spec fn view(&self) -> ResponseFrameV {
        ResponseFrameV {
            op_code: self.header.op_code,
            status: self.header.status,
            key_length: self.header.key_length,
            ttl: self.header.ttl_since_unix_epoch_in_millis@,
            total_frame_length: self.header.total_frame_length,
            key: spec_key_bytes(self.key),
            value: spec_value_bytes(self.value),
        }
    }
}

impl RequestFrameV {
    /// The length fields agree with the payloads and the value fits its bound.
    pub open spec fn wf(self) -> bool {
        &&& self.key_length as int == self.key.len()
        &&& self.total_frame_length as int == HEADER_SIZE_BYTES as int + self.key.len()
            + self.value.len()
        &&& self.value.len() <= MAX_VALUE_LENGTH as int
    }
}

impl ResponseFrameV {
    /// The length fields agree with the payloads and the value fits its bound.
    pub open spec fn wf(self) -> bool {
        &&& self.key_length as int == self.key.len()
        &&& self.total_frame_length as int == HEADER_SIZE_BYTES as int + self.key.len()
            + self.value.len()
        &&& self.value.len() <= MAX_VALUE_LENGTH as int
    }
}

/// The exact encoding of a request frame: header, then key, then value.
/// Byte 1 is padding and encodes as zero.
pub open spec fn spec_request_frame_bytes(f: RequestFrameV) -> Seq<u8> {
    seq![f.op_code.spec_byte(), 0u8, f.key_length] + be_bytes_of_u128(f.ttl) + be_bytes_of_u32(
        f.total_frame_length,
    ) + f.key + f.value
}

/// The exact encoding of a response frame: byte 1 carries the status.
pub open spec fn spec_response_frame_bytes(f: ResponseFrameV) -> Seq<u8> {
    seq![f.op_code.spec_byte(), f.status.spec_byte(), f.key_length] + be_bytes_of_u128(f.ttl)
        + be_bytes_of_u32(f.total_frame_length) + f.key + f.value
}

impl RequestFrame {
    /// A key or value is present exactly when it is non-empty.
    pub open spec fn normalized(self) -> bool {
        &&& (self.key matches Option::Some(k) ==> k@.len() > 0)
        &&& (self.value matches Option::Some(v) ==> v@.len() > 0)
    }

    /// Assemble a frame over the given payloads, computing the length fields.
    pub fn new(
        op_code: OpCode,
        ttl_since_unix_epoch_in_millis: TTLSinceUnixEpochInMillis,
        key: Option<Key>,
        value: Option<Value>,
    ) -> (r: Result<Self, Error>)
        ensures
            r matches Ok(f) && f.header.op_code == op_code
                && f.header.ttl_since_unix_epoch_in_millis == ttl_since_unix_epoch_in_millis
                && f.key == key && f.value == value && f@.wf(),
    {
        let key_length: u8 = match &key {
            Option::Some(k) => k.len(),
            Option::None => 0,
        };
        let value_length: u32 = match &value {
            Option::Some(v) => {
                proof {
                    use_type_invariant(v);
                }
                v.len()
            },
            Option::None => 0,
        };
        let total_frame_length = HEADER_SIZE_BYTES as u32 + key_length as u32 + value_length;
        let header = RequestHeader::new(
            op_code,
            key_length,
            total_frame_length,
            ttl_since_unix_epoch_in_millis,
        );
        Ok(Self { header, key, value })
    }

    /// Serialise the frame. When the frame is well formed the result is
    /// exactly `total_frame_length` bytes long.
    pub fn encode(&self) -> (r: Vec<u8>)
        ensures
            r@ == spec_request_frame_bytes(self@),
            self@.wf() ==> r@.len() == self@.total_frame_length as int,
    {
        let mut out: Vec<u8> = Vec::new();
        out.push(self.header.op_code.as_u8());
        out.push(0);
        out.push(self.header.key_length);
        push_u128_be(&mut out, self.header.ttl_since_unix_epoch_in_millis.into_inner());
        push_u32_be(&mut out, self.header.total_frame_length);
        match &self.key {
            Option::Some(k) => push_payload(&mut out, k.as_bytes()),
            Option::None => (),
        }
        match &self.value {
            Option::Some(v) => push_payload(&mut out, v.as_bytes()),
            Option::None => (),
        }
        proof {
            assert(out@ =~= spec_request_frame_bytes(self@));
        }
        out
    }
}

impl ResponseFrame {
    /// A key or value is present exactly when it is non-empty.
    pub open spec fn normalized(self) -> bool {
        &&& (self.key matches Option::Some(k) ==> k@.len() > 0)
        &&& (self.value matches Option::Some(v) ==> v@.len() > 0)
    }

    /// Assemble a frame over the given payloads, computing the length fields.
    pub fn new(
        op_code: OpCode,
        status: StatusCode,
        ttl_since_unix_epoch_in_millis: TTLSinceUnixEpochInMillis,
        key: Option<Key>,
        value: Option<Value>,
    ) -> (r: Result<Self, Error>)
        ensures
            r matches Ok(f) && f.header.op_code == op_code && f.header.status == status
                && f.header.ttl_since_unix_epoch_in_millis == ttl_since_unix_epoch_in_millis
                && f.key == key && f.value == value && f@.wf(),
    {
        let key_length: u8 = match &key {
            Option::Some(k) => k.len(),
            Option::None => 0,
        };
        let value_length: u32 = match &value {
            Option::Some(v) => {
                proof {
                    use_type_invariant(v);
                }
                v.len()
            },
            Option::None => 0,
        };
        let total_frame_length = HEADER_SIZE_BYTES as u32 + key_length as u32 + value_length;
        let header = ResponseHeader::new(
            op_code,
            status,
            key_length,
            total_frame_length,
            ttl_since_unix_epoch_in_millis,
        );
        Ok(Self { header, key, value })
    }

    /// Serialise the frame. When the frame is well formed the result is
    /// exactly `total_frame_length` bytes long.
    pub fn encode(&self) -> (r: Vec<u8>)
        ensures
            r@ == spec_response_frame_bytes(self@),
            self@.wf() ==> r@.len() == self@.total_frame_length as int,
    {
        let mut out: Vec<u8> = Vec::new();
        out.push(self.header.op_code.as_u8());
        out.push(self.header.status.as_u8());
        out.push(self.header.key_length);
        push_u128_be(&mut out, self.header.ttl_since_unix_epoch_in_millis.into_inner());
        push_u32_be(&mut out, self.header.total_frame_length);
        match &self.key {
            Option::Some(k) => push_payload(&mut out, k.as_bytes()),
            Option::None => (),
        }
        match &self.value {
            Option::Some(v) => push_payload(&mut out, v.as_bytes()),
            Option::None => (),
        }
        proof {
            assert(out@ =~= spec_response_frame_bytes(self@));
        }
        out
    }
}

/// Append payload bytes to the output buffer.
fn push_payload(out: &mut Vec<u8>, s: &[u8])
    ensures
        final(out)@ == old(out)@ + s@,
{
    let n = s.len();
    let mut i: usize = 0;
    while i < n
        invariant
            n == s@.len(),
            i <= n,
            out@ =~= old(out)@ + s@.take(i as int),
        decreases n - i,
    {
        out.push(s[i]);
        i = i + 1;
    }
    proof {
        assert(out@ =~= old(out)@ + s@);
    }
}

} // verus!
