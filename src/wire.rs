//! Byte-level building blocks of the wire format.
//!
//! Every multi-byte number is little-endian. A 32-bit float travels as its
//! IEEE-754 bit pattern, so it is handled here as a `u32`.

use vstd::prelude::*;

verus! {

/// Little-endian bytes of a `u16`.
pub open spec fn le16(x: u16) -> Seq<u8> {
    seq![(x & 0xff) as u8, (x >> 8u16) as u8]
}

/// Little-endian bytes of a `u32`.
pub open spec fn le32(x: u32) -> Seq<u8> {
    seq![
        (x & 0xff) as u8,
        ((x >> 8u32) & 0xff) as u8,
        ((x >> 16u32) & 0xff) as u8,
        (x >> 24u32) as u8,
    ]
}

/// The `u16` stored little-endian at `b[i..i + 2]`.
pub open spec fn u16_at(b: Seq<u8>, i: int) -> u16 {
    (b[i] as u16) | ((b[i + 1] as u16) << 8u16)
}

/// The `u32` stored little-endian at `b[i..i + 4]`.
pub open spec fn u32_at(b: Seq<u8>, i: int) -> u32 {
    (b[i] as u32) | ((b[i + 1] as u32) << 8u32) | ((b[i + 2] as u32) << 16u32) | ((b[i + 3] as u32)
        << 24u32)
}

/// Two's-complement 16-bit pattern of an `i16`.
pub open spec fn i16_bits(x: i16) -> u16 {
    if x >= 0 {
        x as u16
    } else {
        (x + 65536) as u16
    }
}

/// The `i16` whose two's-complement pattern is `v`.
pub open spec fn i16_of_bits(v: u16) -> i16 {
    if v < 32768 {
        v as i16
    } else {
        (v - 65536) as i16
    }
}

/// Two's-complement byte of an `i8`.
pub open spec fn i8_bits(x: i8) -> u8 {
    if x >= 0 {
        x as u8
    } else {
        (x + 256) as u8
    }
}

/// The `i8` whose two's-complement byte is `v`.
pub open spec fn i8_of_bits(v: u8) -> i8 {
    if v < 128 {
        v as i8
    } else {
        (v - 256) as i8
    }
}

/// A boolean is one byte: 1 for true, 0 for false.
pub open spec fn bool_byte(b: bool) -> u8 {
    if b {
        1
    } else {
        0
    }
}

/// Any nonzero byte reads as true.
pub open spec fn byte_bool(v: u8) -> bool {
    v != 0
}

pub proof fn lemma_le16_round_trip(x: u16, rest: Seq<u8>, pre: Seq<u8>)
    ensures
        le16(x).len() == 2,
        u16_at(pre + le16(x) + rest, pre.len() as int) == x,
{
    let b = pre + le16(x) + rest;
    let n = pre.len() as int;
    assert(b[n] == (x & 0xff) as u8);
    assert(b[n + 1] == (x >> 8u16) as u8);
    let lo = (x & 0xff) as u8;
    let hi = (x >> 8u16) as u8;
    assert(((lo as u16) | ((hi as u16) << 8u16)) == x) by (bit_vector)
        requires
            lo == (x & 0xff) as u8,
            hi == (x >> 8u16) as u8,
    ;
}

pub proof fn lemma_le32_round_trip(x: u32, rest: Seq<u8>, pre: Seq<u8>)
    ensures
        le32(x).len() == 4,
        u32_at(pre + le32(x) + rest, pre.len() as int) == x,
{
    let b = pre + le32(x) + rest;
    let n = pre.len() as int;
    let b0 = (x & 0xff) as u8;
    let b1 = ((x >> 8u32) & 0xff) as u8;
    let b2 = ((x >> 16u32) & 0xff) as u8;
    let b3 = (x >> 24u32) as u8;
    assert(b[n] == b0 && b[n + 1] == b1 && b[n + 2] == b2 && b[n + 3] == b3);
    assert(((b0 as u32) | ((b1 as u32) << 8u32) | ((b2 as u32) << 16u32) | ((b3 as u32) << 24u32))
        == x) by (bit_vector)
        requires
            b0 == (x & 0xff) as u8,
            b1 == ((x >> 8u32) & 0xff) as u8,
            b2 == ((x >> 16u32) & 0xff) as u8,
            b3 == (x >> 24u32) as u8,
    ;
}

pub proof fn lemma_i16_bits_round_trip(x: i16)
    ensures
        i16_of_bits(i16_bits(x)) == x,
{
}

pub proof fn lemma_i8_bits_round_trip(x: i8)
    ensures
        i8_of_bits(i8_bits(x)) == x,
{
}

/// Appends the little-endian bytes of `x`.
pub fn push_u16(out: &mut Vec<u8>, x: u16)
    ensures
        final(out)@ == old(out)@ + le16(x),
{
    out.push((x & 0xff) as u8);
    out.push((x >> 8u16) as u8);
    assert(final(out)@ =~= old(out)@ + le16(x));
}

/// Appends the little-endian bytes of `x`.
pub fn push_u32(out: &mut Vec<u8>, x: u32)
    ensures
        final(out)@ == old(out)@ + le32(x),
{
    out.push((x & 0xff) as u8);
    out.push(((x >> 8u32) & 0xff) as u8);
    out.push(((x >> 16u32) & 0xff) as u8);
    out.push((x >> 24u32) as u8);
    assert(final(out)@ =~= old(out)@ + le32(x));
}

/// Appends `n` zero bytes.
pub fn push_zeros(out: &mut Vec<u8>, n: usize)
    ensures
        final(out)@ == old(out)@ + Seq::new(n as nat, |i: int| 0u8),
{
    let ghost start = out@;
    let mut k: usize = 0;
    while k < n
        invariant
            k <= n,
            out@ == start + Seq::new(k as nat, |i: int| 0u8),
        decreases n - k,
    {
        out.push(0u8);
        k = k + 1;
        assert(out@ =~= start + Seq::new(k as nat, |i: int| 0u8));
    }
}

pub fn read_u16(data: &[u8], i: usize) -> (r: u16)
    requires
        i + 2 <= data@.len(),
    ensures
        r == u16_at(data@, i as int),
{
    (data[i] as u16) | ((data[i + 1] as u16) << 8u16)
}

pub fn read_u32(data: &[u8], i: usize) -> (r: u32)
    requires
        i + 4 <= data@.len(),
    ensures
        r == u32_at(data@, i as int),
{
    (data[i] as u32) | ((data[i + 1] as u32) << 8u32) | ((data[i + 2] as u32) << 16u32) | ((data[i
        + 3] as u32) << 24u32)
}

pub fn to_i16_bits(x: i16) -> (r: u16)
    ensures
        r == i16_bits(x),
{
    if x >= 0 {
        x as u16
    } else {
        (x as i32 + 65536) as u16
    }
}

pub fn from_i16_bits(v: u16) -> (r: i16)
    ensures
        r == i16_of_bits(v),
{
    if v < 32768 {
        v as i16
    } else {
        (v as i32 - 65536) as i16
    }
}

pub fn to_i8_bits(x: i8) -> (r: u8)
    ensures
        r == i8_bits(x),
{
    if x >= 0 {
        x as u8
    } else {
        (x as i16 + 256) as u8
    }
}

pub fn from_i8_bits(v: u8) -> (r: i8)
    ensures
        r == i8_of_bits(v),
{
    if v < 128 {
        v as i8
    } else {
        (v as i16 - 256) as i8
    }
}

/// One byte for a boolean.
pub fn bool_to_byte(b: bool) -> (r: u8)
    ensures
        r == bool_byte(b),
{
    if b {
        1
    } else {
        0
    }
}

/// Zero reads as false, anything else as true.
pub fn byte_to_bool(v: u8) -> (r: bool)
    ensures
        r == byte_bool(v),
{
    v != 0
}

} // verus!
