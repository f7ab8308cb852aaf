//! Big-endian encodings of the fixed-width integers that appear in the wire
//! format: `u32` for the total frame length and `u128` for the TTL field.

use vstd::prelude::*;

verus! {

/// The four bytes of `x`, most significant first.
pub open spec fn be_bytes_of_u32(x: u32) -> Seq<u8> {
    seq![(x >> 24) as u8, (x >> 16) as u8, (x >> 8) as u8, x as u8]
}

/// The `u32` whose big-endian bytes are `s` (the first four entries).
pub open spec fn u32_of_be_bytes(s: Seq<u8>) -> u32
    recommends
        s.len() == 4,
{
    (((s[0] as u32) << 24) | ((s[1] as u32) << 16) | ((s[2] as u32) << 8) | (s[3] as u32))
}

/// The sixteen bytes of `x`, most significant first.
pub open spec fn be_bytes_of_u128(x: u128) -> Seq<u8> {
    seq![
        (x >> 120) as u8,
        (x >> 112) as u8,
        (x >> 104) as u8,
        (x >> 96) as u8,
        (x >> 88) as u8,
        (x >> 80) as u8,
        (x >> 72) as u8,
        (x >> 64) as u8,
        (x >> 56) as u8,
        (x >> 48) as u8,
        (x >> 40) as u8,
        (x >> 32) as u8,
        (x >> 24) as u8,
        (x >> 16) as u8,
        (x >> 8) as u8,
        x as u8,
    ]
}

/// The `u128` whose big-endian bytes are `s` (the first sixteen entries).
pub open spec fn u128_of_be_bytes(s: Seq<u8>) -> u128
    recommends
        s.len() == 16,
{
    (((s[0] as u128) << 120) | ((s[1] as u128) << 112) | ((s[2] as u128) << 104) | ((
    s[3] as u128) << 96) | ((s[4] as u128) << 88) | ((s[5] as u128) << 80) | ((s[6] as u128)
        << 72) | ((s[7] as u128) << 64) | ((s[8] as u128) << 56) | ((s[9] as u128) << 48) | ((
    s[10] as u128) << 40) | ((s[11] as u128) << 32) | ((s[12] as u128) << 24) | ((s[13] as u128)
        << 16) | ((s[14] as u128) << 8) | (s[15] as u128))
}

/// Reading back the four bytes of a `u32` yields the original value.
pub proof fn lemma_u32_be_round_trip(x: u32)
    ensures
        u32_of_be_bytes(be_bytes_of_u32(x)) == x,
{
    assert(((((x >> 24) as u8) as u32) << 24) | ((((x >> 16) as u8) as u32) << 16) | ((((x
        >> 8) as u8) as u32) << 8) | (((x as u8) as u32)) == x) by (bit_vector);
}

/// A four-byte sequence is recovered from the `u32` it denotes.
pub proof fn lemma_u32_be_inverse(s: Seq<u8>)
    requires
        s.len() == 4,
    ensures
        be_bytes_of_u32(u32_of_be_bytes(s)) =~= s,
{
    let b0 = s[0];
    let b1 = s[1];
    let b2 = s[2];
    let b3 = s[3];
    let x = (((b0 as u32) << 24) | ((b1 as u32) << 16) | ((b2 as u32) << 8) | (b3 as u32));
    assert((x >> 24) as u8 == b0 && (x >> 16) as u8 == b1 && (x >> 8) as u8 == b2 && x as u8 == b3)
        by (bit_vector)
        requires
            x == (((b0 as u32) << 24) | ((b1 as u32) << 16) | ((b2 as u32) << 8) | (b3 as u32)),
    ;
}

/// Reading back the sixteen bytes of a `u128` yields the original value.
pub proof fn lemma_u128_be_round_trip(x: u128)
    ensures
        u128_of_be_bytes(be_bytes_of_u128(x)) == x,
{
    assert(((((x >> 120) as u8) as u128) << 120) | ((((x >> 112) as u8) as u128) << 112) | ((((x
        >> 104) as u8) as u128) << 104) | ((((x >> 96) as u8) as u128) << 96) | ((((x
        >> 88) as u8) as u128) << 88) | ((((x >> 80) as u8) as u128) << 80) | ((((x
        >> 72) as u8) as u128) << 72) | ((((x >> 64) as u8) as u128) << 64) | ((((x
        >> 56) as u8) as u128) << 56) | ((((x >> 48) as u8) as u128) << 48) | ((((x
        >> 40) as u8) as u128) << 40) | ((((x >> 32) as u8) as u128) << 32) | ((((x
        >> 24) as u8) as u128) << 24) | ((((x >> 16) as u8) as u128) << 16) | ((((x
        >> 8) as u8) as u128) << 8) | (((x as u8) as u128)) == x) by (bit_vector);
}

/// A sixteen-byte sequence is recovered from the `u128` it denotes.
pub proof fn lemma_u128_be_inverse(s: Seq<u8>)
    requires
        s.len() == 16,
    ensures
        be_bytes_of_u128(u128_of_be_bytes(s)) =~= s,
{
    let b0 = s[0];
    let b1 = s[1];
    let b2 = s[2];
    let b3 = s[3];
    let b4 = s[4];
    let b5 = s[5];
    let b6 = s[6];
    let b7 = s[7];
    let b8 = s[8];
    let b9 = s[9];
    let b10 = s[10];
    let b11 = s[11];
    let b12 = s[12];
    let b13 = s[13];
    let b14 = s[14];
    let b15 = s[15];
    let x = (((b0 as u128) << 120) | ((b1 as u128) << 112) | ((b2 as u128) << 104) | ((b3 as u128)
        << 96) | ((b4 as u128) << 88) | ((b5 as u128) << 80) | ((b6 as u128) << 72) | ((b7 as u128)
        << 64) | ((b8 as u128) << 56) | ((b9 as u128) << 48) | ((b10 as u128) << 40) | ((
    b11 as u128) << 32) | ((b12 as u128) << 24) | ((b13 as u128) << 16) | ((b14 as u128) << 8) | (
    b15 as u128));
    assert((x >> 120) as u8 == b0 && (x >> 112) as u8 == b1 && (x >> 104) as u8 == b2 && (x
        >> 96) as u8 == b3 && (x >> 88) as u8 == b4 && (x >> 80) as u8 == b5 && (x >> 72) as u8
        == b6 && (x >> 64) as u8 == b7 && (x >> 56) as u8 == b8 && (x >> 48) as u8 == b9 && (x
        >> 40) as u8 == b10 && (x >> 32) as u8 == b11 && (x >> 24) as u8 == b12 && (x >> 16) as u8
        == b13 && (x >> 8) as u8 == b14 && x as u8 == b15) by (bit_vector)
        requires
            x == (((b0 as u128) << 120) | ((b1 as u128) << 112) | ((b2 as u128) << 104) | ((
            b3 as u128) << 96) | ((b4 as u128) << 88) | ((b5 as u128) << 80) | ((b6 as u128) << 72)
                | ((b7 as u128) << 64) | ((b8 as u128) << 56) | ((b9 as u128) << 48) | ((
            b10 as u128) << 40) | ((b11 as u128) << 32) | ((b12 as u128) << 24) | ((b13 as u128)
                << 16) | ((b14 as u128) << 8) | (b15 as u128)),
    ;
}

/// Append the big-endian bytes of `x` to `out`.
pub fn push_u32_be(out: &mut Vec<u8>, x: u32)
    ensures
        final(out)@ =~= old(out)@ + be_bytes_of_u32(x),
{
    proof {
        assert(((x >> 24) & 0xff) as u8 == (x >> 24) as u8 && ((x >> 16) & 0xff) as u8 == (x
            >> 16) as u8 && ((x >> 8) & 0xff) as u8 == (x >> 8) as u8 && (x & 0xff) as u8
            == x as u8 && ((x >> 24) & 0xff) < 256 && ((x >> 16) & 0xff) < 256 && ((x >> 8) & 0xff)
            < 256 && (x & 0xff) < 256) by (bit_vector);
    }
    out.push(((x >> 24) & 0xff) as u8);
    out.push(((x >> 16) & 0xff) as u8);
    out.push(((x >> 8) & 0xff) as u8);
    out.push((x & 0xff) as u8);
}

/// Append the big-endian bytes of `x` to `out`.
pub fn push_u128_be(out: &mut Vec<u8>, x: u128)
    ensures
        final(out)@ =~= old(out)@ + be_bytes_of_u128(x),
{
    proof {
        assert(((x >> 120) & 0xff) as u8 == (x >> 120) as u8 && ((x >> 112) & 0xff) as u8 == (x
            >> 112) as u8 && ((x >> 104) & 0xff) as u8 == (x >> 104) as u8 && ((x >> 96)
            & 0xff) as u8 == (x >> 96) as u8 && ((x >> 88) & 0xff) as u8 == (x >> 88) as u8 && ((x
            >> 80) & 0xff) as u8 == (x >> 80) as u8 && ((x >> 72) & 0xff) as u8 == (x
            >> 72) as u8 && ((x >> 64) & 0xff) as u8 == (x >> 64) as u8 && ((x >> 56) & 0xff) as u8
            == (x >> 56) as u8 && ((x >> 48) & 0xff) as u8 == (x >> 48) as u8 && ((x >> 40)
            & 0xff) as u8 == (x >> 40) as u8 && ((x >> 32) & 0xff) as u8 == (x >> 32) as u8 && ((x
            >> 24) & 0xff) as u8 == (x >> 24) as u8 && ((x >> 16) & 0xff) as u8 == (x
            >> 16) as u8 && ((x >> 8) & 0xff) as u8 == (x >> 8) as u8 && (x & 0xff) as u8
            == x as u8) by (bit_vector);
        assert(forall|y: u128| ((y & 0xff) < 256)) by (bit_vector);
    }
    out.push(((x >> 120) & 0xff) as u8);
    out.push(((x >> 112) & 0xff) as u8);
    out.push(((x >> 104) & 0xff) as u8);
    out.push(((x >> 96) & 0xff) as u8);
    out.push(((x >> 88) & 0xff) as u8);
    out.push(((x >> 80) & 0xff) as u8);
    out.push(((x >> 72) & 0xff) as u8);
    out.push(((x >> 64) & 0xff) as u8);
    out.push(((x >> 56) & 0xff) as u8);
    out.push(((x >> 48) & 0xff) as u8);
    out.push(((x >> 40) & 0xff) as u8);
    out.push(((x >> 32) & 0xff) as u8);
    out.push(((x >> 24) & 0xff) as u8);
    out.push(((x >> 16) & 0xff) as u8);
    out.push(((x >> 8) & 0xff) as u8);
    out.push((x & 0xff) as u8);
}

/// Read a big-endian `u32` from `s` starting at `at`.
pub fn read_u32_be(s: &[u8], at: usize) -> (x: u32)
    requires
        at + 4 <= s@.len(),
    ensures
        x == u32_of_be_bytes(s@.subrange(at as int, at + 4)),
{
    let x = (((s[at] as u32) << 24) | ((s[at + 1] as u32) << 16) | ((s[at + 2] as u32) << 8) | (
    s[at + 3] as u32));
    proof {
        let sub = s@.subrange(at as int, at + 4);
        assert(sub[0] == s@[at as int] && sub[1] == s@[at + 1] && sub[2] == s@[at + 2] && sub[3]
            == s@[at + 3]);
    }
    x
}

/// Read a big-endian `u128` from `s` starting at `at`.
pub fn read_u128_be(s: &[u8], at: usize) -> (x: u128)
    requires
        at + 16 <= s@.len(),
    ensures
        x == u128_of_be_bytes(s@.subrange(at as int, at + 16)),
{
    let x = (((s[at] as u128) << 120) | ((s[at + 1] as u128) << 112) | ((s[at + 2] as u128) << 104)
        | ((s[at + 3] as u128) << 96) | ((s[at + 4] as u128) << 88) | ((s[at + 5] as u128) << 80)
        | ((s[at + 6] as u128) << 72) | ((s[at + 7] as u128) << 64) | ((s[at + 8] as u128) << 56)
        | ((s[at + 9] as u128) << 48) | ((s[at + 10] as u128) << 40) | ((s[at + 11] as u128) << 32)
        | ((s[at + 12] as u128) << 24) | ((s[at + 13] as u128) << 16) | ((s[at + 14] as u128) << 8)
        | (s[at + 15] as u128));
    proof {
        let sub = s@.subrange(at as int, at + 16);
        assert(forall|i: int| 0 <= i < 16 ==> sub[i] == s@[at + i]);
    }
    x
}

} // verus!
