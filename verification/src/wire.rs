//! Outbound encoders: every byte sequence the client writes to the console.
//!
//! Writes are framed by the sender-side escape rule: inside a node-id field
//! a literal `0xDF` is followed by `0xDE`.  Each public encoder returns one
//! complete, self-delimited byte sequence, stated exactly by its
//! specification-level mirror.

use vstd::prelude::*;
use vstd::string::{StringSliceAdditionalSpecFns, StrSliceExecFns};
use crate::bytes::{be16_bytes, be32_bytes, unsign16, unsign32};

verus! {

/// An id byte on the wire: itself, plus a trailing `0xDE` when the byte
/// happens to be the escape byte.
pub open spec fn escaped_id_byte(b: u8) -> Seq<u8> {
    if b == 0xdf {
        seq![0xdfu8, 0xdeu8]
    } else {
        seq![b]
    }
}

/// A node-id field: a prefix control byte, the four big-endian bytes of
/// the id each escaped, and an optional suffix control byte.
pub open spec fn id_field(id: i32, prefix: u8, suffix: Option<u8>) -> Seq<u8> {
    let bs = be32_bytes(unsign32(id as int));
    seq![prefix] + escaped_id_byte(bs[0]) + escaped_id_byte(bs[1]) + escaped_id_byte(bs[2])
        + escaped_id_byte(bs[3]) + (match suffix {
        Some(s) => seq![s],
        None => Seq::<u8>::empty(),
    })
}

/// The two-byte connect handshake, also used as the data keepalive frame.
pub open spec fn handshake_frame() -> Seq<u8> {
    seq![0xdfu8, 0xd1u8]
}

/// The bytes of a data request: `0xDA 0xDC` for the root, otherwise the id
/// field with suffix `0xDC`.
pub open spec fn request_data_frame(id: i32) -> Seq<u8> {
    if id == 0 {
        seq![0xdau8, 0xdcu8]
    } else {
        id_field(id, 0xd7, Some(0xdc))
    }
}

/// The bytes of a definition request: `0xDA 0xDD` for the root, otherwise
/// the id field with suffix `0xDD`.
pub open spec fn request_definition_frame(id: i32) -> Seq<u8> {
    if id == 0 {
        seq![0xdau8, 0xddu8]
    } else {
        id_field(id, 0xd7, Some(0xdd))
    }
}

/// The value part of an integer write: one inline byte for `0..=0x3F`, a
/// `0xD3` 16-bit form when the value fits, the `0xD4` 32-bit form
/// otherwise.
pub open spec fn int_value_bytes(v: i32) -> Seq<u8> {
    if 0 <= v <= 0x3f {
        seq![v as u8]
    } else if -0x8000 <= v <= 0x7fff {
        seq![0xd3u8] + be16_bytes(unsign16(v as int))
    } else {
        seq![0xd4u8] + be32_bytes(unsign32(v as int))
    }
}

/// The full frame of an integer write.
pub open spec fn set_int_frame(id: i32, v: i32) -> Seq<u8> {
    id_field(id, 0xd7, None) + int_value_bytes(v)
}

/// The full frame of a float write: the id field with suffix `0xD5`, then
/// the four big-endian bytes of the IEEE-754 bit pattern.
pub open spec fn set_float_frame(id: i32, bits: u32) -> Seq<u8> {
    id_field(id, 0xd7, Some(0xd5)) + be32_bytes(bits as int)
}

/// The length marker of a string write: `0xD0` for the empty string, one
/// byte `0x7F + len` up to 64 bytes, `0xD1 (len - 1)` up to 256 bytes.
pub open spec fn string_marker(len: int) -> Seq<u8> {
    if len == 0 {
        seq![0xd0u8]
    } else if len <= 64 {
        seq![(0x7f + len) as u8]
    } else {
        seq![0xd1u8, (len - 1) as u8]
    }
}

/// The full frame of a string write: the id field, the length marker, then
/// the raw string bytes.
pub open spec fn set_string_frame(id: i32, s: Seq<u8>) -> Seq<u8> {
    id_field(id, 0xd7, None) + string_marker(s.len() as int) + s
}

/// Append one id byte with its sender-side escape.
fn push_escaped_id_byte(buf: &mut Vec<u8>, b: u8)
    ensures
        final(buf)@ == old(buf)@ + escaped_id_byte(b),
{
    buf.push(b);
    if b == 0xdf {
        buf.push(0xde);
    }
    assert(buf@ =~= old(buf)@ + escaped_id_byte(b));
}

/// Append a node-id field: prefix control byte, four escaped id bytes, and
/// an optional suffix control byte.
pub fn format_id(id: i32, buf: &mut Vec<u8>, prefix: u8, suffix: Option<u8>)
    ensures
        final(buf)@ == old(buf)@ + id_field(id, prefix, suffix),
{
    buf.push(prefix);
    let u = crate::bytes::u32_of_i32(id);
    let b1 = (u / 0x100_0000) as u8;
    let b2 = (u / 0x1_0000 % 256) as u8;
    let b3 = (u / 256 % 256) as u8;
    let b4 = (u % 256) as u8;
    push_escaped_id_byte(buf, b1);
    push_escaped_id_byte(buf, b2);
    push_escaped_id_byte(buf, b3);
    push_escaped_id_byte(buf, b4);
    if let Some(s) = suffix {
        buf.push(s);
    }
    assert(buf@ =~= old(buf)@ + id_field(id, prefix, suffix));
}

/// The connect handshake bytes; the same frame keeps the data connection
/// alive.
pub fn encode_handshake() -> (r: Vec<u8>)
    ensures
        r@ == handshake_frame(),
{
    let mut buf: Vec<u8> = Vec::new();
    buf.push(0xdf);
    buf.push(0xd1);
    assert(buf@ =~= handshake_frame());
    buf
}

/// The bytes that request the data of node `id`.
pub fn encode_request_node_data(id: i32) -> (r: Vec<u8>)
    ensures
        r@ == request_data_frame(id),
{
    let mut buf: Vec<u8> = Vec::new();
    if id == 0 {
        buf.push(0xda);
        buf.push(0xdc);
        assert(buf@ =~= request_data_frame(id));
    } else {
        format_id(id, &mut buf, 0xd7, Some(0xdc));
    }
    buf
}

/// The bytes that request the definition of node `id`.
pub fn encode_request_node_definition(id: i32) -> (r: Vec<u8>)
    ensures
        r@ == request_definition_frame(id),
{
    let mut buf: Vec<u8> = Vec::new();
    if id == 0 {
        buf.push(0xda);
        buf.push(0xdd);
        assert(buf@ =~= request_definition_frame(id));
    } else {
        format_id(id, &mut buf, 0xd7, Some(0xdd));
    }
    buf
}

/// The bytes that set node `id` to the integer `v`.
pub fn encode_set_int(id: i32, v: i32) -> (r: Vec<u8>)
    ensures
        r@ == set_int_frame(id, v),
{
    let mut buf: Vec<u8> = Vec::new();
    format_id(id, &mut buf, 0xd7, None);
    if 0 <= v && v <= 0x3f {
        buf.push(v as u8);
    } else if -0x8000 <= v && v <= 0x7fff {
        buf.push(0xd3);
        let u: u16 = if v >= 0 {
            v as u16
        } else {
            (v + 0x1_0000) as u16
        };
        crate::bytes::push_be16(&mut buf, u);
    } else {
        buf.push(0xd4);
        let u = crate::bytes::u32_of_i32(v);
        crate::bytes::push_be32(&mut buf, u);
    }
    assert(buf@ =~= set_int_frame(id, v));
    buf
}

/// The bytes that set node `id` to the float whose IEEE-754 bit pattern is
/// `bits`.
pub fn encode_set_float_bits(id: i32, bits: u32) -> (r: Vec<u8>)
    ensures
        r@ == set_float_frame(id, bits),
{
    let mut buf: Vec<u8> = Vec::new();
    format_id(id, &mut buf, 0xd7, Some(0xd5));
    crate::bytes::push_be32(&mut buf, bits);
    assert(buf@ =~= set_float_frame(id, bits));
    buf
}

/// The bytes that set node `id` to the string whose UTF-8 encoding is `s`.
/// Strings over 256 bytes have no wire form and are outside the contract.
pub fn encode_set_string_bytes(id: i32, s: &Vec<u8>) -> (r: Vec<u8>)
    requires
        s@.len() <= 256,
    ensures
        r@ == set_string_frame(id, s@),
{
    let mut buf: Vec<u8> = Vec::new();
    format_id(id, &mut buf, 0xd7, None);
    if s.len() == 0 {
        buf.push(0xd0);
    } else if s.len() <= 64 {
        buf.push(0x7f + (s.len() as u8));
    } else {
        buf.push(0xd1);
        buf.push((s.len() - 1) as u8);
    }
    let ghost pre = buf@;
    assert(pre =~= id_field(id, 0xd7, None) + string_marker(s@.len() as int));
    let mut i: usize = 0;
    while i < s.len()
        invariant
            i <= s@.len(),
            buf@ == pre + s@.subrange(0, i as int),
        decreases s@.len() - i,
    {
        buf.push(s[i]);
        i = i + 1;
        assert(buf@ =~= pre + s@.subrange(0, i as int));
    }
    assert(buf@ =~= set_string_frame(id, s@));
    buf
}

/// The bytes that set node `id` to the string `s`, which travels as its
/// UTF-8 encoding.  Strings over 256 bytes have no wire form: they yield
/// nothing.
pub fn encode_set_string(id: i32, s: &str) -> (r: Option<Vec<u8>>)
    ensures
        s.spec_bytes().len() <= 256 ==> (r matches Some(v) && v@ == set_string_frame(
            id,
            s.spec_bytes(),
        )),
        s.spec_bytes().len() > 256 ==> r is None,
{
    let bytes = s.as_bytes_vec();
    if bytes.len() <= 256 {
        Some(encode_set_string_bytes(id, &bytes))
    } else {
        None
    }
}

} // verus!
