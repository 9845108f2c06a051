//! Big-endian byte assembly and two's-complement reinterpretation.
//!
//! The protocol sends all multi-byte integers big-endian and reads signed
//! values as the two's-complement reinterpretation of the unsigned word of
//! the same width.  IEEE-754 `float32` values travel as their four raw bits
//! bytes; this crate keeps them as `u32` bit patterns throughout.

use vstd::prelude::*;

verus! {

/// The unsigned value of two big-endian bytes.
pub open spec fn be16(hi: u8, lo: u8) -> int {
    hi * 256 + lo
}

/// The unsigned value of four big-endian bytes.
pub open spec fn be32(b0: u8, b1: u8, b2: u8, b3: u8) -> int {
    b0 * 0x100_0000 + b1 * 0x1_0000 + b2 * 256 + b3
}

/// Reinterpret an unsigned 16-bit value as two's-complement.
pub open spec fn sign16(v: int) -> int {
    if v < 0x8000 {
        v
    } else {
        v - 0x1_0000
    }
}

/// Reinterpret an unsigned 32-bit value as two's-complement.
pub open spec fn sign32(v: int) -> int {
    if v < 0x8000_0000 {
        v
    } else {
        v - 0x1_0000_0000
    }
}

/// The unsigned 32-bit word whose two's-complement reading is `v`.
pub open spec fn unsign32(v: int) -> int {
    if v >= 0 {
        v
    } else {
        v + 0x1_0000_0000
    }
}

/// The unsigned 16-bit word whose two's-complement reading is `v`.
pub open spec fn unsign16(v: int) -> int {
    if v >= 0 {
        v
    } else {
        v + 0x1_0000
    }
}

/// The four big-endian bytes of an unsigned 32-bit value.
pub open spec fn be32_bytes(u: int) -> Seq<u8> {
    seq![
        (u / 0x100_0000 % 256) as u8,
        (u / 0x1_0000 % 256) as u8,
        (u / 256 % 256) as u8,
        (u % 256) as u8,
    ]
}

/// The two big-endian bytes of an unsigned 16-bit value.
pub open spec fn be16_bytes(u: int) -> Seq<u8> {
    seq![(u / 256 % 256) as u8, (u % 256) as u8]
}

/// Splitting an unsigned 32-bit value into bytes and reassembling them is
/// the identity, in both directions.
pub proof fn lemma_be32_roundtrip(u: int)
    requires
        0 <= u < 0x1_0000_0000,
    ensures
        be32(
            be32_bytes(u)[0],
            be32_bytes(u)[1],
            be32_bytes(u)[2],
            be32_bytes(u)[3],
        ) == u,
{
    assert(u == u / 0x100_0000 * 0x100_0000 + u / 0x1_0000 % 0x100 * 0x1_0000 + u / 0x100 % 0x100
        * 0x100 + u % 0x100) by (nonlinear_arith)
        requires
            0 <= u < 0x1_0000_0000,
    ;
    assert(u / 0x100_0000 < 0x100);
}

/// Splitting an unsigned 16-bit value into bytes and reassembling them is
/// the identity.
pub proof fn lemma_be16_roundtrip(u: int)
    requires
        0 <= u < 0x1_0000,
    ensures
        be16(be16_bytes(u)[0], be16_bytes(u)[1]) == u,
{
    assert(u == u / 0x100 * 0x100 + u % 0x100) by (nonlinear_arith)
        requires
            0 <= u < 0x1_0000,
    ;
}

/// Assemble two big-endian bytes into an unsigned 16-bit value.
pub fn u16_from_be(hi: u8, lo: u8) -> (r: u16)
    ensures
        r == be16(hi, lo),
{
    (hi as u16) * 256 + (lo as u16)
}

/// Assemble two big-endian bytes into a signed 16-bit value.
pub fn i16_from_be(hi: u8, lo: u8) -> (r: i16)
    ensures
        r == sign16(be16(hi, lo)),
{
    let u = u16_from_be(hi, lo);
    if u < 0x8000 {
        u as i16
    } else {
        ((u as i32) - 0x1_0000) as i16
    }
}

/// Assemble four big-endian bytes into an unsigned 32-bit value.
pub fn u32_from_be(b0: u8, b1: u8, b2: u8, b3: u8) -> (r: u32)
    ensures
        r == be32(b0, b1, b2, b3),
{
    (b0 as u32) * 0x100_0000 + (b1 as u32) * 0x1_0000 + (b2 as u32) * 256 + (b3 as u32)
}

/// Assemble four big-endian bytes into a signed 32-bit value.
pub fn i32_from_be(b0: u8, b1: u8, b2: u8, b3: u8) -> (r: i32)
    ensures
        r == sign32(be32(b0, b1, b2, b3)),
{
    let u = u32_from_be(b0, b1, b2, b3);
    if u < 0x8000_0000 {
        u as i32
    } else {
        ((u as i64) - 0x1_0000_0000) as i32
    }
}

/// The unsigned 32-bit word carrying a signed value.
pub fn u32_of_i32(v: i32) -> (r: u32)
    ensures
        r == unsign32(v as int),
{
    if v >= 0 {
        v as u32
    } else {
        ((v as i64) + 0x1_0000_0000) as u32
    }
}

/// Push the four big-endian bytes of an unsigned 32-bit value.
pub fn push_be32(buf: &mut Vec<u8>, u: u32)
    ensures
        final(buf)@ == old(buf)@ + be32_bytes(u as int),
{
    let b0 = (u / 0x100_0000) as u8;
    let b1 = (u / 0x1_0000 % 256) as u8;
    let b2 = (u / 256 % 256) as u8;
    let b3 = (u % 256) as u8;
    buf.push(b0);
    buf.push(b1);
    buf.push(b2);
    buf.push(b3);
    assert(buf@ =~= old(buf)@ + be32_bytes(u as int));
}

/// Copy the bytes of `b` between `lo` and `hi` into a fresh vector.
pub fn vec_subrange(b: &Vec<u8>, lo: usize, hi: usize) -> (r: Vec<u8>)
    requires
        lo <= hi <= b@.len(),
    ensures
        r@ == b@.subrange(lo as int, hi as int),
{
    let mut r: Vec<u8> = Vec::new();
    let mut i: usize = lo;
    while i < hi
        invariant
            lo <= i <= hi <= b@.len(),
            r@ == b@.subrange(lo as int, i as int),
        decreases hi - i,
    {
        r.push(b[i]);
        i = i + 1;
        assert(r@ =~= b@.subrange(lo as int, i as int));
    }
    r
}

/// Push the two big-endian bytes of an unsigned 16-bit value.
pub fn push_be16(buf: &mut Vec<u8>, u: u16)
    ensures
        final(buf)@ == old(buf)@ + be16_bytes(u as int),
{
    let b0 = (u / 256) as u8;
    let b1 = (u % 256) as u8;
    buf.push(b0);
    buf.push(b1);
    assert(buf@ =~= old(buf)@ + be16_bytes(u as int));
}

} // verus!
