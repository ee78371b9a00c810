//! Fixed-width big-endian integer fields.
//!
//! Every multi-byte integer of a record is written most significant byte
//! first. The spec functions here give the byte image of an integer and the
//! integer of a byte image; the executable functions append a field to a
//! buffer and read a field back.

use vstd::prelude::*;

verus! {

/// The four bytes of `x`, most significant first.
pub open spec fn u32_be(x: u32) -> Seq<u8> {
    seq![(x >> 24) as u8, (x >> 16) as u8, (x >> 8) as u8, x as u8]
}

/// The eight bytes of `x`, most significant first.
pub open spec fn u64_be(x: u64) -> Seq<u8> {
    seq![
        (x >> 56) as u8,
        (x >> 48) as u8,
        (x >> 40) as u8,
        (x >> 32) as u8,
        (x >> 24) as u8,
        (x >> 16) as u8,
        (x >> 8) as u8,
        x as u8,
    ]
}

/// The eight bytes of the two's complement image of `x`, most significant
/// first.
pub open spec fn i64_be(x: i64) -> Seq<u8> {
    u64_be(x as u64)
}

/// The integer whose big-endian image is the first four bytes of `b`.
pub open spec fn u32_from_be(b: Seq<u8>) -> u32
    recommends
        b.len() >= 4,
{
    (b[0] as u32) << 24 | (b[1] as u32) << 16 | (b[2] as u32) << 8 | (b[3] as u32)
}

/// The integer whose big-endian image is the first eight bytes of `b`.
pub open spec fn u64_from_be(b: Seq<u8>) -> u64
    recommends
        b.len() >= 8,
{
    (b[0] as u64) << 56 | (b[1] as u64) << 48 | (b[2] as u64) << 40 | (b[3] as u64) << 32 | (
    b[4] as u64) << 24 | (b[5] as u64) << 16 | (b[6] as u64) << 8 | (b[7] as u64)
}

/// The signed integer whose two's complement big-endian image is the first
/// eight bytes of `b`.
pub open spec fn i64_from_be(b: Seq<u8>) -> i64
    recommends
        b.len() >= 8,
{
    u64_from_be(b) as i64
}

/// Reading back the image of a `u32` gives the integer.
pub proof fn lemma_u32_be_round_trip(x: u32)
    ensures
        u32_be(x).len() == 4,
        u32_from_be(u32_be(x)) == x,
{
    assert(((x >> 24) as u8 as u32) << 24 | ((x >> 16) as u8 as u32) << 16 | ((x >> 8) as u8 as u32)
        << 8 | (x as u8 as u32) == x) by (bit_vector);
}

/// Reading back the image of a `u64` gives the integer.
pub proof fn lemma_u64_be_round_trip(x: u64)
    ensures
        u64_be(x).len() == 8,
        u64_from_be(u64_be(x)) == x,
{
    assert(((x >> 56) as u8 as u64) << 56 | ((x >> 48) as u8 as u64) << 48 | ((x >> 40) as u8 as u64)
        << 40 | ((x >> 32) as u8 as u64) << 32 | ((x >> 24) as u8 as u64) << 24 | ((x >> 16) as u8
        as u64) << 16 | ((x >> 8) as u8 as u64) << 8 | (x as u8 as u64) == x) by (bit_vector);
}

/// Reading back the image of an `i64` gives the integer.
pub proof fn lemma_i64_be_round_trip(x: i64)
    ensures
        i64_be(x).len() == 8,
        i64_from_be(i64_be(x)) == x,
{
    lemma_u64_be_round_trip(x as u64);
    assert((x as u64) as i64 == x) by (bit_vector);
}

/// Four bytes are the image of the integer read from them.
pub proof fn lemma_u32_from_be_round_trip(b: Seq<u8>)
    requires
        b.len() == 4,
    ensures
        u32_be(u32_from_be(b)) == b,
{
    let (b0, b1, b2, b3) = (b[0], b[1], b[2], b[3]);
    let x = u32_from_be(b);
    assert(x == (b0 as u32) << 24 | (b1 as u32) << 16 | (b2 as u32) << 8 | (b3 as u32) ==> (x
        >> 24) as u8 == b0 && (x >> 16) as u8 == b1 && (x >> 8) as u8 == b2 && x as u8 == b3)
        by (bit_vector);
}

/// Eight bytes are the image of the unsigned integer read from them.
pub proof fn lemma_u64_from_be_round_trip(b: Seq<u8>)
    requires
        b.len() == 8,
    ensures
        u64_be(u64_from_be(b)) == b,
{
    let (b0, b1, b2, b3) = (b[0], b[1], b[2], b[3]);
    let (b4, b5, b6, b7) = (b[4], b[5], b[6], b[7]);
    let x = u64_from_be(b);
    assert(x == (b0 as u64) << 56 | (b1 as u64) << 48 | (b2 as u64) << 40 | (b3 as u64) << 32 | (
    b4 as u64) << 24 | (b5 as u64) << 16 | (b6 as u64) << 8 | (b7 as u64) ==> (x >> 56) as u8
        == b0 && (x >> 48) as u8 == b1 && (x >> 40) as u8 == b2 && (x >> 32) as u8 == b3 && (x
        >> 24) as u8 == b4 && (x >> 16) as u8 == b5 && (x >> 8) as u8 == b6 && x as u8 == b7)
        by (bit_vector);
}

/// Eight bytes are the image of the signed integer read from them.
pub proof fn lemma_i64_from_be_round_trip(b: Seq<u8>)
    requires
        b.len() == 8,
    ensures
        i64_be(i64_from_be(b)) == b,
{
    let x = u64_from_be(b);
    assert((x as i64) as u64 == x) by (bit_vector);
    lemma_u64_from_be_round_trip(b);
}

/// A big-endian field is the sum of its bytes, each weighted by its place.
pub proof fn lemma_u64_from_be_weights(b: Seq<u8>)
    ensures
        u64_from_be(b) == b[0] * 0x0100_0000_0000_0000 + b[1] * 0x0001_0000_0000_0000 + b[2]
            * 0x0000_0100_0000_0000 + b[3] * 0x0000_0001_0000_0000 + b[4] * 0x0100_0000 + b[5]
            * 0x0001_0000 + b[6] * 0x0100 + b[7],
{
    let (b0, b1, b2, b3) = (b[0], b[1], b[2], b[3]);
    let (b4, b5, b6, b7) = (b[4], b[5], b[6], b[7]);
    assert(((b0 as u64) << 56 | (b1 as u64) << 48 | (b2 as u64) << 40 | (b3 as u64) << 32 | (
    b4 as u64) << 24 | (b5 as u64) << 16 | (b6 as u64) << 8 | (b7 as u64)) == b0
        * 0x0100_0000_0000_0000 + b1 * 0x0001_0000_0000_0000 + b2 * 0x0000_0100_0000_0000 + b3
        * 0x0000_0001_0000_0000 + b4 * 0x0100_0000 + b5 * 0x0001_0000 + b6 * 0x0100 + b7)
        by (bit_vector);
}

/// Setting a bit makes the number larger: where a zero bit of one of the
/// first eight bytes of `b` becomes one, the integer read from them grows.
pub proof fn lemma_u64_from_be_bit_set(b: Seq<u8>, at: int, bit: u8)
    requires
        b.len() >= 8,
        0 <= at < 8,
        bit < 8,
        b[at] & (1u8 << bit) == 0,
    ensures
        u64_from_be(b.update(at, b[at] ^ (1u8 << bit))) > u64_from_be(b),
{
    let x = b[at];
    assert(bit < 8 && x & (1u8 << bit) == 0 ==> x ^ (1u8 << bit) > x) by (bit_vector);
    lemma_u64_from_be_weights(b);
    lemma_u64_from_be_weights(b.update(at, x ^ (1u8 << bit)));
}

/// Clearing a bit makes the number smaller: where a one bit of one of the
/// first eight bytes of `b` becomes zero, the integer read from them shrinks.
pub proof fn lemma_u64_from_be_bit_cleared(b: Seq<u8>, at: int, bit: u8)
    requires
        b.len() >= 8,
        0 <= at < 8,
        bit < 8,
        b[at] & (1u8 << bit) != 0,
    ensures
        u64_from_be(b.update(at, b[at] ^ (1u8 << bit))) < u64_from_be(b),
{
    let x = b[at];
    let y = x ^ (1u8 << bit);
    let cleared = b.update(at, y);
    assert(x & (1u8 << bit) != 0 && y == x ^ (1u8 << bit) ==> y & (1u8 << bit) == 0 && y ^ (1u8
        << bit) == x) by (bit_vector);
    lemma_u64_from_be_bit_set(cleared, at, bit);
}

/// Appends the big-endian image of `x` to `buf`.
pub(crate) fn put_u32_be(buf: &mut Vec<u8>, x: u32)
    ensures
        final(buf)@ == old(buf)@ + u32_be(x),
{
    buf.push((x >> 24) as u8);
    buf.push((x >> 16) as u8);
    buf.push((x >> 8) as u8);
    buf.push(x as u8);
}

/// Appends the big-endian image of `x` to `buf`.
pub(crate) fn put_u64_be(buf: &mut Vec<u8>, x: u64)
    ensures
        final(buf)@ == old(buf)@ + u64_be(x),
{
    buf.push((x >> 56) as u8);
    buf.push((x >> 48) as u8);
    buf.push((x >> 40) as u8);
    buf.push((x >> 32) as u8);
    buf.push((x >> 24) as u8);
    buf.push((x >> 16) as u8);
    buf.push((x >> 8) as u8);
    buf.push(x as u8);
}

/// Appends the big-endian two's complement image of `x` to `buf`.
pub(crate) fn put_i64_be(buf: &mut Vec<u8>, x: i64)
    ensures
        final(buf)@ == old(buf)@ + i64_be(x),
{
    put_u64_be(buf, x as u64);
}

/// Reads a `u32` from the first four bytes of `b`.
pub(crate) fn get_u32_be(b: &[u8]) -> (x: u32)
    requires
        b@.len() >= 4,
    ensures
        x == u32_from_be(b@),
{
    (b[0] as u32) << 24 | (b[1] as u32) << 16 | (b[2] as u32) << 8 | (b[3] as u32)
}

/// Reads a `u64` from the first eight bytes of `b`.
pub(crate) fn get_u64_be(b: &[u8]) -> (x: u64)
    requires
        b@.len() >= 8,
    ensures
        x == u64_from_be(b@),
{
    (b[0] as u64) << 56 | (b[1] as u64) << 48 | (b[2] as u64) << 40 | (b[3] as u64) << 32 | (
    b[4] as u64) << 24 | (b[5] as u64) << 16 | (b[6] as u64) << 8 | (b[7] as u64)
}

/// Reads an `i64` from the first eight bytes of `b`.
pub(crate) fn get_i64_be(b: &[u8]) -> (x: i64)
    requires
        b@.len() >= 8,
    ensures
        x == i64_from_be(b@),
{
    get_u64_be(b) as i64
}

} // verus!
