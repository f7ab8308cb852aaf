//! Domain values of the cache: keys, values, and the absolute expiry time.
//!
//! Keys and values carry raw bytes end to end; conversion to text happens at
//! the API boundary only, where invalid UTF-8 is replaced, never rejected.

use vstd::prelude::*;
use vstd::utf8::{decode_utf8, encode_utf8, valid_utf8};
use crate::error::{Error, FrameError};

verus! {

/// On the wire a TTL field of zero means "no TTL".
pub const NO_TTL_INDICATOR: u128 = 0;

/// A value may hold at most 1 MiB of bytes.
pub const MAX_VALUE_LENGTH: u32 = 1024 * 1024;

/// A key may hold at most 255 bytes: its length travels in a single byte.
pub const MAX_KEY_LENGTH: u8 = 255;

/// What `String::from_utf8_lossy` returns for a byte sequence: a function of
/// the bytes alone, pinned to [`decode_utf8`] on valid UTF-8 by the wrapper
/// below.
pub uninterp spec fn lossy_utf8(bytes: Seq<u8>) -> Seq<char>;

/// Relies on `String::from_utf8_lossy`: the result depends on the bytes
/// alone, and on valid UTF-8 it is exactly the decoded text; invalid
/// sequences are replaced, never rejected.
#[verifier::external_body]
pub(crate) fn string_from_utf8_lossy(b: &[u8]) -> (r: String)
    ensures
        r@ == lossy_utf8(b@),
        valid_utf8(b@) ==> r@ == decode_utf8(b@),
{
    String::from_utf8_lossy(b).into_owned()
}

/// An absolute expiry instant in milliseconds since the Unix epoch, as it
/// travels on the wire: zero stands for "no TTL".
#[derive(Debug, Clone, Copy, PartialEq, Eq, Structural)]
pub struct TTLSinceUnixEpochInMillis(u128);

impl View for TTLSinceUnixEpochInMillis {
    type V = u128;

    closed spec fn view(&self) -> u128 {
        self.0
    }
}

impl TTLSinceUnixEpochInMillis {
    /// The optional expiry this wire value stands for.
    pub open spec fn spec_ttl(self) -> Option<u128> {
        if self@ == 0 {
            None
        } else {
            Some(self@)
        }
    }

    /// Absent TTLs map to the zero sentinel; `Some(0)` collapses to it too.
    pub fn parse(ttl: Option<u128>) -> (r: Self)
        ensures
            r@ == (match ttl {
                Option::None => 0u128,
                Option::Some(t) => t,
            }),
    {
        match ttl {
            Option::None => Self(NO_TTL_INDICATOR),
            Option::Some(t) => Self(t),
        }
    }

    pub fn into_inner(self) -> (r: u128)
        ensures
            r == self@,
    {
        self.0
    }

    pub fn into_ttl(self) -> (r: Option<u128>)
        ensures
            r == self.spec_ttl(),
    {
        if self.0 == 0 {
            Option::None
        } else {
            Option::Some(self.0)
        }
    }
}

/// A key of the cache: at most [`MAX_KEY_LENGTH`] bytes.
#[derive(Debug)]
pub struct Key {
    bytes: Vec<u8>,
}

/// A stored value: at most [`MAX_VALUE_LENGTH`] bytes.
#[derive(Debug)]
pub struct Value {
    bytes: Vec<u8>,
}

impl View for Key {
    type V = Seq<u8>;

    closed spec fn view(&self) -> Seq<u8> {
        self.bytes@
    }
}

impl View for Value {
    type V = Seq<u8>;

    closed spec fn view(&self) -> Seq<u8> {
        self.bytes@
    }
}

impl Key {
    /// Holds of every key: the length bound is an invariant of the type.
    #[verifier::type_invariant]
    pub open spec fn wf(self) -> bool {
        self@.len() <= MAX_KEY_LENGTH as int
    }

    /// Accept a text key whose UTF-8 form fits in 255 bytes.
    pub fn parse(k: String) -> (r: Result<Self, Error>)
        ensures
            match r {
                Result::Ok(key) => key@ == encode_utf8(k@) && encode_utf8(k@).len()
                    <= MAX_KEY_LENGTH as int,
                Result::Err(e) => e == Error::Frame(FrameError::KeyTooLong) && encode_utf8(
                    k@,
                ).len() > MAX_KEY_LENGTH as int,
            },
    {
        let s = k.as_str().as_bytes();
        if s.len() > MAX_KEY_LENGTH as usize {
            return Result::Err(Error::Frame(FrameError::KeyTooLong));
        }
        Result::Ok(Self::from_bytes(copy_bytes(s)))
    }

    /// Wrap raw bytes that already fit the bound.
    pub fn from_bytes(bytes: Vec<u8>) -> (r: Self)
        requires
            bytes@.len() <= MAX_KEY_LENGTH as int,
        ensures
            r@ == bytes@,
    {
        Self { bytes }
    }

    /// The key as text, with invalid UTF-8 replaced.
    pub fn into_inner(self) -> (r: String)
        ensures
            r@ == lossy_utf8(self@),
            valid_utf8(self@) ==> r@ == decode_utf8(self@),
    {
        string_from_utf8_lossy(self.bytes.as_slice())
    }

    /// The byte length; it fits in one byte.
    pub fn len(&self) -> (r: u8)
        ensures
            r as int == self@.len(),
    {
        proof {
            use_type_invariant(self);
        }
        self.bytes.len() as u8
    }

    pub fn as_bytes(&self) -> (r: &[u8])
        ensures
            r@ == self@,
    {
        self.bytes.as_slice()
    }
}

impl Value {
    /// Holds of every value: the length bound is an invariant of the type.
    #[verifier::type_invariant]
    pub open spec fn wf(self) -> bool {
        self@.len() <= MAX_VALUE_LENGTH as int
    }

    /// Accept a text value whose UTF-8 form fits in 1 MiB.
    pub fn parse(v: String) -> (r: Result<Self, Error>)
        ensures
            match r {
                Result::Ok(value) => value@ == encode_utf8(v@) && encode_utf8(v@).len()
                    <= MAX_VALUE_LENGTH as int,
                Result::Err(e) => e == Error::Frame(FrameError::ValueTooLong) && encode_utf8(
                    v@,
                ).len() > MAX_VALUE_LENGTH as int,
            },
    {
        let s = v.as_str().as_bytes();
        if s.len() > MAX_VALUE_LENGTH as usize {
            return Result::Err(Error::Frame(FrameError::ValueTooLong));
        }
        Result::Ok(Self::from_bytes(copy_bytes(s)))
    }

    /// Wrap raw bytes that already fit the bound.
    pub fn from_bytes(bytes: Vec<u8>) -> (r: Self)
        requires
            bytes@.len() <= MAX_VALUE_LENGTH as int,
        ensures
            r@ == bytes@,
    {
        Self { bytes }
    }

    /// The value as text, with invalid UTF-8 replaced.
    pub fn into_inner(self) -> (r: String)
        ensures
            r@ == lossy_utf8(self@),
            valid_utf8(self@) ==> r@ == decode_utf8(self@),
    {
        string_from_utf8_lossy(self.bytes.as_slice())
    }

    /// The byte length; it fits in a `u32`.
    pub fn len(&self) -> (r: u32)
        ensures
            r as int == self@.len(),
    {
        proof {
            use_type_invariant(self);
        }
        self.bytes.len() as u32
    }

    pub fn as_bytes(&self) -> (r: &[u8])
        ensures
            r@ == self@,
    {
        self.bytes.as_slice()
    }
}

impl Clone for Key {
    fn clone(&self) -> (r: Self)
        ensures
            r@ == self@,
    {
        proof {
            use_type_invariant(self);
        }
        Self { bytes: copy_bytes(self.bytes.as_slice()) }
    }
}

impl Clone for Value {
    fn clone(&self) -> (r: Self)
        ensures
            r@ == self@,
    {
        proof {
            use_type_invariant(self);
        }
        Self { bytes: copy_bytes(self.bytes.as_slice()) }
    }
}

impl PartialEq for Key {
    fn eq(&self, other: &Self) -> (r: bool) {
        bytes_equal(self.bytes.as_slice(), other.bytes.as_slice())
    }
}

impl vstd::std_specs::cmp::PartialEqSpecImpl for Key {
    open spec fn obeys_eq_spec() -> bool {
        true
    }

    open spec fn eq_spec(&self, other: &Key) -> bool {
        self@ == other@
    }
}

impl Eq for Key {

}

impl PartialEq for Value {
    fn eq(&self, other: &Self) -> (r: bool) {
        bytes_equal(self.bytes.as_slice(), other.bytes.as_slice())
    }
}

impl vstd::std_specs::cmp::PartialEqSpecImpl for Value {
    open spec fn obeys_eq_spec() -> bool {
        true
    }

    open spec fn eq_spec(&self, other: &Value) -> bool {
        self@ == other@
    }
}

impl Eq for Value {

}

/// Byte-for-byte equality of two slices.
pub fn bytes_equal(a: &[u8], b: &[u8]) -> (r: bool)
    ensures
        r == (a@ == b@),
{
    if a.len() != b.len() {
        proof {
            assert(a@ != b@);
        }
        return false;
    }
    let n = a.len();
    let mut i: usize = 0;
    while i < n
        invariant
            n == a@.len() == b@.len(),
            i <= n,
            forall|j: int| 0 <= j < i ==> a@[j] == b@[j],
        decreases n - i,
    {
        if a[i] != b[i] {
            return false;
        }
        i = i + 1;
    }
    proof {
        assert(a@ =~= b@);
    }
    true
}

/// A fresh vector holding the bytes of a slice.
pub fn copy_bytes(s: &[u8]) -> (r: Vec<u8>)
    ensures
        r@ == s@,
{
    let n = s.len();
    let mut r: Vec<u8> = Vec::new();
    let mut i: usize = 0;
    while i < n
        invariant
            n == s@.len(),
            i <= n,
            r@ =~= s@.take(i as int),
        decreases n - i,
    {
        r.push(s[i]);
        i = i + 1;
    }
    proof {
        assert(r@ =~= s@);
    }
    r
}

} // verus!
