//! Round-trip and addressing laws of the codec.
//!
//! The outbound encoders of `wire` and the inbound machine of `session`
//! meet in these proofs: a value written with `set_int`, `set_float` or
//! `set_string` and pushed through the escape rules and the dispatcher
//! comes back as the same value, addressed to the written node id; and
//! every `NodeData` the dispatcher emits is addressed with the node id and
//! channel current when its command byte was dispatched.
//!
//! The value bytes of the 16- and 32-bit and string forms travel without
//! sender-side escaping, so a value byte equal to the escape byte `0xDF`
//! would be eaten by the inbound escape layer: the round-trip laws
//! exclude such encodings, and with them a 256-character string whose
//! length byte would be `0xDF`.  Inline small integers and the node-id
//! field itself, which the sender escapes, round-trip unconditionally.

use vstd::prelude::*;
use crate::bytes::{
    be16, be32, be16_bytes, be32_bytes, sign16, sign32, unsign16, unsign32,
    lemma_be16_roundtrip, lemma_be32_roundtrip,
};
use crate::frame::{FrameState, frame_next, frame_step};
use crate::node::SpecValue;
use crate::session::{SessionState, session_next, frame_take};
use crate::wire::{
    escaped_id_byte, id_field, int_value_bytes, set_int_frame, set_float_frame, set_string_frame,
    string_marker,
};
use crate::SpecResponse;

verus! {

/// A byte run free of the escape byte.
pub open spec fn clean(bs: Seq<u8>) -> bool {
    forall|i: int| 0 <= i < bs.len() ==> bs[i] != 0xdf
}

/// The four escaped id bytes of a node-id field, without prefix and
/// suffix.
pub open spec fn escaped_id_bytes(id: i32) -> Seq<u8> {
    let bs = be32_bytes(unsign32(id as int));
    escaped_id_byte(bs[0]) + escaped_id_byte(bs[1]) + escaped_id_byte(bs[2]) + escaped_id_byte(
        bs[3],
    )
}

/// A decoder at rest: no escape pending, no byte held back.
pub open spec fn at_rest(f: FrameState) -> bool {
    &&& !f.esc
    &&& f.pushback is None
}

/// Reading `n` bytes free of the escape byte returns them unchanged and
/// leaves the decoder state alone.
proof fn lemma_take_clean(f: FrameState, input: Seq<u8>, pos: int, n: nat)
    requires
        at_rest(f),
        0 <= pos,
        pos + n <= input.len(),
        forall|i: int| pos <= i < pos + n ==> input[i] != 0xdf,
    ensures
        frame_take(f, input, pos, n) == Some((f, pos + n, input.subrange(pos, pos + n))),
    decreases n,
{
    if n == 0 {
        assert(input.subrange(pos, pos) =~= Seq::<u8>::empty());
    } else {
        assert(frame_next(f, input, pos) == Some((f, pos + 1, f.channel, input[pos])));
        lemma_take_clean(f, input, pos + 1, (n - 1) as nat);
        assert(seq![input[pos]] + input.subrange(pos + 1, pos + n) =~= input.subrange(
            pos,
            pos + n,
        ));
    }
}

/// One escaped id byte decodes back to the byte and leaves a decoder at
/// rest unchanged.
proof fn lemma_next_escaped_id(f: FrameState, input: Seq<u8>, pos: int, b: u8)
    requires
        at_rest(f),
        0 <= pos,
        pos + escaped_id_byte(b).len() <= input.len(),
        input.subrange(pos, pos + escaped_id_byte(b).len() as int) == escaped_id_byte(b),
    ensures
        frame_next(f, input, pos) == Some(
            (f, pos + escaped_id_byte(b).len(), f.channel, b),
        ),
{
    if b == 0xdf {
        assert(input[pos] == escaped_id_byte(b)[0]);
        assert(input[pos + 1] == escaped_id_byte(b)[1]);
        let f2 = FrameState { esc: true, ..f };
        assert(frame_next(f, input, pos) == frame_next(f2, input, pos + 1));
        assert(frame_step(f2, 0xde) == (FrameState { esc: false, ..f2 }, Some(0xdfu8)));
        assert(FrameState { esc: false, ..f2 } == f);
    } else {
        assert(input[pos] == escaped_id_byte(b)[0]);
    }
}

/// The four escaped id bytes decode back to the four big-endian id bytes
/// and leave a decoder at rest unchanged.
proof fn lemma_take_id4(f: FrameState, input: Seq<u8>, pos: int, id: i32)
    requires
        at_rest(f),
        0 <= pos,
        pos + escaped_id_bytes(id).len() <= input.len(),
        input.subrange(pos, pos + escaped_id_bytes(id).len() as int) == escaped_id_bytes(id),
    ensures
        frame_take(f, input, pos, 4) == Some(
            (f, pos + escaped_id_bytes(id).len(), be32_bytes(unsign32(id as int))),
        ),
{
    let bs = be32_bytes(unsign32(id as int));
    let e0 = escaped_id_byte(bs[0]);
    let e1 = escaped_id_byte(bs[1]);
    let e2 = escaped_id_byte(bs[2]);
    let e3 = escaped_id_byte(bs[3]);
    let p1 = pos + e0.len();
    let p2 = p1 + e1.len();
    let p3 = p2 + e2.len();
    let p4 = p3 + e3.len();
    let cat = e0 + e1 + e2 + e3;
    assert forall|j: int| 0 <= j < cat.len() implies input[pos + j] == cat[j] by {
        assert(input.subrange(pos, pos + cat.len() as int)[j] == input[pos + j]);
    }
    assert(input.subrange(pos, p1) =~= e0) by {
        assert forall|i: int| 0 <= i < e0.len() implies input.subrange(pos, p1)[i] == e0[i] by {
            assert(input[pos + i] == cat[i]);
        }
    }
    assert(input.subrange(p1, p2) =~= e1) by {
        assert forall|i: int| 0 <= i < e1.len() implies input.subrange(p1, p2)[i] == e1[i] by {
            assert(input[pos + (e0.len() + i)] == cat[e0.len() + i]);
        }
    }
    assert(input.subrange(p2, p3) =~= e2) by {
        assert forall|i: int| 0 <= i < e2.len() implies input.subrange(p2, p3)[i] == e2[i] by {
            assert(input[pos + (e0.len() + e1.len() + i)] == cat[e0.len() + e1.len() + i]);
        }
    }
    assert(input.subrange(p3, p4) =~= e3) by {
        assert forall|i: int| 0 <= i < e3.len() implies input.subrange(p3, p4)[i] == e3[i] by {
            assert(input[pos + (e0.len() + e1.len() + e2.len() + i)] == cat[e0.len() + e1.len()
                + e2.len() + i]);
        }
    }
    lemma_next_escaped_id(f, input, pos, bs[0]);
    lemma_next_escaped_id(f, input, p1, bs[1]);
    lemma_next_escaped_id(f, input, p2, bs[2]);
    lemma_next_escaped_id(f, input, p3, bs[3]);
    assert(frame_take(f, input, p4, 0) == Some((f, p4, Seq::<u8>::empty())));
    assert(frame_take(f, input, p3, 1) == Some((f, p4, seq![bs[3]] + Seq::<u8>::empty())));
    assert(frame_take(f, input, p2, 2) == Some(
        (f, p4, seq![bs[2]] + (seq![bs[3]] + Seq::<u8>::empty())),
    ));
    assert(frame_take(f, input, p1, 3) == Some(
        (f, p4, seq![bs[1]] + (seq![bs[2]] + (seq![bs[3]] + Seq::<u8>::empty()))),
    ));
    assert(seq![bs[0]] + (seq![bs[1]] + (seq![bs[2]] + (seq![bs[3]] + Seq::<u8>::empty())))
        =~= bs);
}

/// A node-id field with prefix `0xD7` and no suffix moves the dispatcher
/// to the written node id and otherwise changes nothing.
proof fn lemma_session_after_id(st: SessionState, input: Seq<u8>, pos: int, id: i32)
    requires
        at_rest(st.frame),
        0 <= pos,
        pos + 1 + escaped_id_bytes(id).len() <= input.len(),
        input.subrange(pos, pos + 1 + escaped_id_bytes(id).len() as int) == seq![0xd7u8]
            + escaped_id_bytes(id),
    ensures
        session_next(st, input, pos) == session_next(
            SessionState { frame: st.frame, node_id: id },
            input,
            pos + 1 + escaped_id_bytes(id).len(),
        ),
{
    let eb = escaped_id_bytes(id);
    let cat = seq![0xd7u8] + eb;
    assert forall|j: int| 0 <= j < cat.len() implies input[pos + j] == cat[j] by {
        assert(input.subrange(pos, pos + cat.len() as int)[j] == input[pos + j]);
    }
    assert(input[pos] == cat[0]);
    let f = st.frame;
    assert(frame_next(f, input, pos) == Some((f, pos + 1, f.channel, 0xd7u8)));
    assert(input.subrange(pos + 1, pos + 1 + eb.len() as int) =~= eb) by {
        assert forall|i: int| 0 <= i < eb.len() implies input.subrange(
            pos + 1,
            pos + 1 + eb.len() as int,
        )[i] == eb[i] by {
            assert(input[pos + (1 + i)] == cat[1 + i]);
        }
    }
    lemma_take_id4(f, input, pos + 1, id);
    let bs = be32_bytes(unsign32(id as int));
    lemma_be32_roundtrip(unsign32(id as int));
    assert(sign32(be32(bs[0], bs[1], bs[2], bs[3])) == id);
}

/// The channel and the node id an emitted `NodeData` is addressed with:
/// when the dispatched command byte opens a data message, the response
/// carries the node id current at that dispatch and the channel the
/// command byte arrived on.
pub open spec fn is_data_cmd(cmd: u8) -> bool {
    ||| cmd < 0x40
    ||| 0x80 <= cmd <= 0xd1
    ||| 0xd3 <= cmd <= 0xd6
}

/// Every `NodeData` the dispatcher emits carries the node id observed
/// when its command byte was dispatched, and the channel that byte
/// arrived on.
pub proof fn lemma_data_addressing(st: SessionState, input: Seq<u8>, pos: int)
    requires
        frame_next(st.frame, input, pos) matches Some((f2, pos2, ch, cmd)) && is_data_cmd(cmd),
        session_next(st, input, pos) is Some,
    ensures
        ({
            let (st2, p2, resp) = session_next(st, input, pos)->0;
            let (f2, pos2, ch, cmd) = frame_next(st.frame, input, pos)->0;
            &&& resp matches SpecResponse::Data { ch: c, id, val }
            &&& c == ch
            &&& id == st.node_id
        }),
{
}

/// The value a decoded integer write carries: the inline form for small
/// values, the 16-bit form when the value fits, the 32-bit form
/// otherwise.
pub open spec fn expected_int_value(v: i32) -> SpecValue {
    if 0 <= v <= 0x3f {
        SpecValue::Int(v)
    } else if -0x8000 <= v <= 0x7fff {
        SpecValue::Short(v as i16)
    } else {
        SpecValue::Int(v)
    }
}

/// An integer written with `set_int` round-trips through the inbound
/// decoder: dispatching the written frame from a decoder at rest yields
/// one `NodeData` carrying the written id and the written value, inline
/// values as `Int`, 16-bit values as `Short`, the rest as `Int` again.
/// The value bytes must be free of the escape byte.
pub proof fn lemma_set_int_roundtrip(st: SessionState, id: i32, v: i32)
    requires
        at_rest(st.frame),
        clean(int_value_bytes(v)),
    ensures
        ({
            let input = set_int_frame(id, v);
            session_next(st, input, 0) == Some(
                (
                    SessionState { frame: st.frame, node_id: id },
                    input.len() as int,
                    SpecResponse::Data {
                        ch: st.frame.channel,
                        id: id,
                        val: expected_int_value(v),
                    },
                ),
            )
        }),
{
    let input = set_int_frame(id, v);
    let eb = escaped_id_bytes(id);
    let vb = int_value_bytes(v);
    let p1 = 1 + eb.len() as int;
    assert(id_field(id, 0xd7, None) =~= seq![0xd7u8] + eb);
    assert(input.subrange(0, p1) =~= seq![0xd7u8] + eb);
    lemma_session_after_id(st, input, 0, id);
    let st1 = SessionState { frame: st.frame, node_id: id };
    let f = st.frame;
    assert(input.len() == p1 + vb.len());
    assert(input.subrange(p1, input.len() as int) =~= vb);
    if 0 <= v <= 0x3f {
        assert(input[p1] == vb[0]);
        assert(frame_next(f, input, p1) == Some((f, p1 + 1, f.channel, (v as u8))));
        assert((v as u8) < 0x40);
        assert(((v as u8) as i32) == v);
    } else if -0x8000 <= v <= 0x7fff {
        assert(input[p1] == vb[0]);
        assert(vb[0] == 0xd3);
        assert(frame_next(f, input, p1) == Some((f, p1 + 1, f.channel, 0xd3u8)));
        let hb = be16_bytes(unsign16(v as int));
        assert(forall|i: int| p1 + 1 <= i < p1 + 3 ==> input[i] == vb[i - p1]);
        assert(forall|i: int| p1 + 1 <= i < p1 + 3 ==> input[i] != 0xdf);
        lemma_take_clean(f, input, p1 + 1, 2);
        assert(input.subrange(p1 + 1, p1 + 3) =~= hb);
        lemma_be16_roundtrip(unsign16(v as int));
        assert(sign16(be16(hb[0], hb[1])) == v);
    } else {
        assert(input[p1] == vb[0]);
        assert(vb[0] == 0xd4);
        assert(frame_next(f, input, p1) == Some((f, p1 + 1, f.channel, 0xd4u8)));
        let wb = be32_bytes(unsign32(v as int));
        assert(forall|i: int| p1 + 1 <= i < p1 + 5 ==> input[i] == vb[i - p1]);
        assert(forall|i: int| p1 + 1 <= i < p1 + 5 ==> input[i] != 0xdf);
        lemma_take_clean(f, input, p1 + 1, 4);
        assert(input.subrange(p1 + 1, p1 + 5) =~= wb);
        lemma_be32_roundtrip(unsign32(v as int));
        assert(sign32(be32(wb[0], wb[1], wb[2], wb[3])) == v);
    }
}

/// A float written with `set_float` round-trips through the inbound
/// decoder: dispatching the written frame from a decoder at rest yields
/// one `NodeData` carrying the written id and the written bit pattern.
/// The four bit-pattern bytes must be free of the escape byte.
pub proof fn lemma_set_float_roundtrip(st: SessionState, id: i32, bits: u32)
    requires
        at_rest(st.frame),
        clean(be32_bytes(bits as int)),
    ensures
        ({
            let input = set_float_frame(id, bits);
            session_next(st, input, 0) == Some(
                (
                    SessionState { frame: st.frame, node_id: id },
                    input.len() as int,
                    SpecResponse::Data {
                        ch: st.frame.channel,
                        id: id,
                        val: SpecValue::Float(bits),
                    },
                ),
            )
        }),
{
    let input = set_float_frame(id, bits);
    let eb = escaped_id_bytes(id);
    let p1 = 1 + eb.len() as int;
    assert(input.subrange(0, p1) =~= seq![0xd7u8] + eb);
    lemma_session_after_id(st, input, 0, id);
    let f = st.frame;
    let wb = be32_bytes(bits as int);
    assert(input.len() == p1 + 1 + 4);
    assert(input[p1] == 0xd5);
    assert(frame_next(f, input, p1) == Some((f, p1 + 1, f.channel, 0xd5u8)));
    assert(forall|i: int| p1 + 1 <= i < p1 + 5 ==> input[i] == wb[i - p1 - 1]);
    assert(forall|i: int| p1 + 1 <= i < p1 + 5 ==> input[i] != 0xdf);
    lemma_take_clean(f, input, p1 + 1, 4);
    assert(input.subrange(p1 + 1, p1 + 5) =~= wb);
    lemma_be32_roundtrip(bits as int);
    assert(be32(wb[0], wb[1], wb[2], wb[3]) == bits);
}

/// A string written with `set_string` round-trips through the inbound
/// decoder: dispatching the written frame from a decoder at rest yields
/// one `NodeData` carrying the written id and the written bytes.  The
/// string must fit the wire forms (at most 256 bytes), its bytes must be
/// free of the escape byte, and its length may not be 224, whose length
/// byte on the wire would be the escape byte.
pub proof fn lemma_set_string_roundtrip(st: SessionState, id: i32, s: Seq<u8>)
    requires
        at_rest(st.frame),
        s.len() <= 256,
        s.len() != 224,
        clean(s),
    ensures
        ({
            let input = set_string_frame(id, s);
            session_next(st, input, 0) == Some(
                (
                    SessionState { frame: st.frame, node_id: id },
                    input.len() as int,
                    SpecResponse::Data {
                        ch: st.frame.channel,
                        id: id,
                        val: SpecValue::Text(s),
                    },
                ),
            )
        }),
{
    let input = set_string_frame(id, s);
    let eb = escaped_id_bytes(id);
    let p1 = 1 + eb.len() as int;
    assert(input.subrange(0, p1) =~= seq![0xd7u8] + eb);
    lemma_session_after_id(st, input, 0, id);
    let f = st.frame;
    let mk = string_marker(s.len() as int);
    assert(input.len() == p1 + mk.len() + s.len());
    if s.len() == 0 {
        assert(input[p1] == mk[0]);
        assert(frame_next(f, input, p1) == Some((f, p1 + 1, f.channel, 0xd0u8)));
        assert(SpecValue::Text(Seq::<u8>::empty()) == SpecValue::Text(s)) by {
            assert(Seq::<u8>::empty() =~= s);
        }
    } else if s.len() <= 64 {
        let cmd = (0x7f + s.len()) as u8;
        assert(input[p1] == mk[0]);
        assert(mk[0] == cmd);
        assert(frame_next(f, input, p1) == Some((f, p1 + 1, f.channel, cmd)));
        assert(0x80 <= cmd < 0xc0);
        assert((cmd - 0x80 + 1) as nat == s.len());
        assert(forall|i: int| p1 + 1 <= i < p1 + 1 + s.len() ==> input[i] == s[i - p1 - 1]);
        assert(forall|i: int| p1 + 1 <= i < p1 + 1 + s.len() ==> input[i] != 0xdf);
        lemma_take_clean(f, input, p1 + 1, s.len());
        assert(input.subrange(p1 + 1, p1 + 1 + s.len() as int) =~= s);
    } else {
        let lenb = (s.len() - 1) as u8;
        assert(input[p1] == mk[0]);
        assert(mk[0] == 0xd1);
        assert(frame_next(f, input, p1) == Some((f, p1 + 1, f.channel, 0xd1u8)));
        assert(input[p1 + 1] == mk[1]);
        assert(mk[1] == lenb);
        assert(lenb != 0xdf);
        assert(frame_next(f, input, p1 + 1) == Some((f, p1 + 2, f.channel, lenb)));
        assert((lenb + 1) as nat == s.len());
        assert(forall|i: int| p1 + 2 <= i < p1 + 2 + s.len() ==> input[i] == s[i - p1 - 2]);
        assert(forall|i: int| p1 + 2 <= i < p1 + 2 + s.len() ==> input[i] != 0xdf);
        lemma_take_clean(f, input, p1 + 2, s.len());
        assert(input.subrange(p1 + 2, p1 + 2 + s.len() as int) =~= s);
    }
}

} // verus!
