//! Little-endian encoding and decoding of the fixed-width integers the
//! wire format and the ring framing use.

use vstd::prelude::*;

verus! {

/// The value of two little-endian bytes.
pub open spec fn u16_le(b: Seq<u8>) -> int
    recommends
        b.len() == 2,
{
    b[0] + 0x100 * b[1]
}

/// The value of four little-endian bytes.
pub open spec fn u32_le(b: Seq<u8>) -> int
    recommends
        b.len() == 4,
{
    b[0] + 0x100 * b[1] + 0x1_0000 * b[2] + 0x100_0000 * b[3]
}

/// The value of eight little-endian bytes.
pub open spec fn u64_le(b: Seq<u8>) -> int
    recommends
        b.len() == 8,
{
    b[0] + 0x100 * b[1] + 0x1_0000 * b[2] + 0x100_0000 * b[3] + 0x1_0000_0000 * b[4]
        + 0x100_0000_0000 * b[5] + 0x1_0000_0000_0000 * b[6] + 0x100_0000_0000_0000 * b[7]
}

/// The two little-endian bytes of a 16-bit value.
pub open spec fn u16_le_bytes(x: u16) -> Seq<u8> {
    seq![(x % 0x100) as u8, (x / 0x100) as u8]
}

/// The four little-endian bytes of a 32-bit value.
pub open spec fn u32_le_bytes(x: u32) -> Seq<u8> {
    seq![
        (x % 0x100) as u8,
        ((x / 0x100) % 0x100) as u8,
        ((x / 0x1_0000) % 0x100) as u8,
        ((x / 0x100_0000) % 0x100) as u8,
    ]
}

/// The eight little-endian bytes of a 64-bit value.
pub open spec fn u64_le_bytes(x: u64) -> Seq<u8> {
    seq![
        (x % 0x100) as u8,
        ((x / 0x100) % 0x100) as u8,
        ((x / 0x1_0000) % 0x100) as u8,
        ((x / 0x100_0000) % 0x100) as u8,
        ((x / 0x1_0000_0000) % 0x100) as u8,
        ((x / 0x100_0000_0000) % 0x100) as u8,
        ((x / 0x1_0000_0000_0000) % 0x100) as u8,
        ((x / 0x100_0000_0000_0000) % 0x100) as u8,
    ]
}

/// Decoding the little-endian bytes of a 16-bit value gives the value back.
pub proof fn lemma_u16_le_roundtrip(x: u16)
    ensures
        u16_le(u16_le_bytes(x)) == x,
{
    assert(x % 0x100 + 0x100 * (x / 0x100) == x) by (bit_vector);
}

/// Decoding the little-endian bytes of a 32-bit value gives the value back.
pub proof fn lemma_u32_le_roundtrip(x: u32)
    ensures
        u32_le(u32_le_bytes(x)) == x,
{
    assert(x % 0x100 + 0x100 * ((x / 0x100) % 0x100) + 0x1_0000 * ((x / 0x1_0000) % 0x100)
        + 0x100_0000 * ((x / 0x100_0000) % 0x100) == x) by (bit_vector);
}

/// Decoding the little-endian bytes of a 64-bit value gives the value back.
pub proof fn lemma_u64_le_roundtrip(x: u64)
    ensures
        u64_le(u64_le_bytes(x)) == x,
{
    assert(x % 0x100 + 0x100 * ((x / 0x100) % 0x100) + 0x1_0000 * ((x / 0x1_0000) % 0x100)
        + 0x100_0000 * ((x / 0x100_0000) % 0x100) + 0x1_0000_0000 * ((x / 0x1_0000_0000) % 0x100)
        + 0x100_0000_0000 * ((x / 0x100_0000_0000) % 0x100)
        + 0x1_0000_0000_0000 * ((x / 0x1_0000_0000_0000) % 0x100)
        + 0x100_0000_0000_0000 * ((x / 0x100_0000_0000_0000) % 0x100) == x) by (bit_vector);
}

/// Appends the two little-endian bytes of `x`.
pub fn push_u16_le(out: &mut Vec<u8>, x: u16)
    ensures
        final(out)@ == old(out)@ + u16_le_bytes(x),
{
    out.push((x % 0x100) as u8);
    out.push((x / 0x100) as u8);
    assert(final(out)@ =~= old(out)@ + u16_le_bytes(x));
}

/// Appends the four little-endian bytes of `x`.
pub fn push_u32_le(out: &mut Vec<u8>, x: u32)
    ensures
        final(out)@ == old(out)@ + u32_le_bytes(x),
{
    out.push((x % 0x100) as u8);
    out.push(((x / 0x100) % 0x100) as u8);
    out.push(((x / 0x1_0000) % 0x100) as u8);
    out.push(((x / 0x100_0000) % 0x100) as u8);
    assert(final(out)@ =~= old(out)@ + u32_le_bytes(x));
}

/// Appends the eight little-endian bytes of `x`.
pub fn push_u64_le(out: &mut Vec<u8>, x: u64)
    ensures
        final(out)@ == old(out)@ + u64_le_bytes(x),
{
    out.push((x % 0x100) as u8);
    out.push(((x / 0x100) % 0x100) as u8);
    out.push(((x / 0x1_0000) % 0x100) as u8);
    out.push(((x / 0x100_0000) % 0x100) as u8);
    out.push(((x / 0x1_0000_0000) % 0x100) as u8);
    out.push(((x / 0x100_0000_0000) % 0x100) as u8);
    out.push(((x / 0x1_0000_0000_0000) % 0x100) as u8);
    out.push(((x / 0x100_0000_0000_0000) % 0x100) as u8);
    assert(final(out)@ =~= old(out)@ + u64_le_bytes(x));
}

/// Reads a 16-bit value from two little-endian bytes.
pub fn decode_u16_le(b0: u8, b1: u8) -> (x: u16)
    ensures
        x == u16_le(seq![b0, b1]),
{
    b0 as u16 + 0x100 * (b1 as u16)
}

/// Reads a 32-bit value from four little-endian bytes.
pub fn decode_u32_le(b0: u8, b1: u8, b2: u8, b3: u8) -> (x: u32)
    ensures
        x == u32_le(seq![b0, b1, b2, b3]),
{
    b0 as u32 + 0x100 * (b1 as u32) + 0x1_0000 * (b2 as u32) + 0x100_0000 * (b3 as u32)
}

/// Reads a 64-bit value from the first eight bytes of `b`.
pub fn decode_u64_le(b: &Vec<u8>) -> (x: u64)
    requires
        b@.len() >= 8,
    ensures
        x == u64_le(b@.subrange(0, 8)),
{
    let x = b[0] as u64 + 0x100 * (b[1] as u64) + 0x1_0000 * (b[2] as u64) + 0x100_0000 * (
    b[3] as u64) + 0x1_0000_0000 * (b[4] as u64) + 0x100_0000_0000 * (b[5] as u64)
        + 0x1_0000_0000_0000 * (b[6] as u64) + 0x100_0000_0000_0000 * (b[7] as u64);
    assert(b@.subrange(0, 8) =~= seq![b@[0], b@[1], b@[2], b@[3], b@[4], b@[5], b@[6], b@[7]]);
    x
}

} // verus!
