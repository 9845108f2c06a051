//! The response dispatcher: from decoded bytes to responses.
//!
//! The session pulls `(channel, byte)` pairs out of the frame decoder and
//! interprets the byte stream as commands: inline small integers, short
//! and length-prefixed strings, 16- and 32-bit integers, float bit
//! patterns, the current-node-id control, navigation controls that carry
//! no payload, the end-of-request marker, and node-definition blocks.
//!
//! `session_next` is the specification-level mirror of one dispatcher
//! step: the successor state, the new cursor, and the emitted response.
//! A `NodeData` response carries the node id current when its command
//! byte was dispatched and the channel on which that byte arrived.
//! `read_message` commits its state only when it emits a response, so a
//! caller whose buffer ran dry can refill it and call again.

use vstd::prelude::*;
use vstd::utf8::valid_utf8;
use crate::frame::{FrameState, frame_next, frame_measure, lemma_frame_next_measure, decode_next};
use crate::node::{SpecValue, WingNodeData, WingNodeDef, spec_parse_def, def_strings_ok};
use crate::bytes::{be16, be32, sign16, sign32};
use crate::{Error, SpecResponse, WingResponse};

verus! {

/// Read `n` decoded bytes: the successor decoder state, the new cursor
/// and the bytes, or `None` when the buffer is exhausted first.
pub open spec fn frame_take(st: FrameState, input: Seq<u8>, pos: int, n: nat) -> Option<
    (FrameState, int, Seq<u8>),
>
    decreases n,
{
    if n == 0 {
        Some((st, pos, Seq::empty()))
    } else {
        match frame_next(st, input, pos) {
            None => None,
            Some((st2, pos2, ch, b)) => match frame_take(st2, input, pos2, (n - 1) as nat) {
                None => None,
                Some((st3, pos3, bs)) => Some((st3, pos3, seq![b] + bs)),
            },
        }
    }
}

/// A successful multi-byte read returns exactly `n` bytes and never grows
/// the termination measure; it shrinks it whenever `n` is positive.
pub proof fn lemma_frame_take_measure(st: FrameState, input: Seq<u8>, pos: int, n: nat)
    requires
        frame_take(st, input, pos, n) is Some,
    ensures
        ({
            let (st3, pos3, bs) = frame_take(st, input, pos, n)->0;
            &&& bs.len() == n
            &&& pos <= pos3
            &&& frame_measure(st3, input, pos3) <= frame_measure(st, input, pos)
            &&& n >= 1 ==> frame_measure(st3, input, pos3) < frame_measure(st, input, pos)
            &&& 0 <= frame_measure(st3, input, pos3)
        }),
    decreases n,
{
    if n == 0 {
    } else {
        let (st2, pos2, ch, b) = frame_next(st, input, pos)->0;
        lemma_frame_next_measure(st, input, pos);
        lemma_frame_take_measure(st2, input, pos2, (n - 1) as nat);
    }
}

/// State of the dispatcher between two messages.
#[derive(Clone, Copy, PartialEq, Eq, Structural)]
pub struct SessionState {
    /// The frame decoder's state.
    pub frame: FrameState,
    /// The node id that the next `NodeData` will carry; set by the `0xD7`
    /// control, initially zero.
    pub node_id: i32,
}

impl SessionState {
    /// The state a fresh connection starts in.
    pub open spec fn initial() -> SessionState {
        SessionState { frame: FrameState::initial(), node_id: 0 }
    }

    /// The state a fresh connection starts in.
    pub fn new() -> (r: SessionState)
        ensures
            r == SessionState::initial(),
    {
        SessionState { frame: FrameState::new(), node_id: 0 }
    }
}

/// One dispatcher step reading `input` from `pos`: the successor state,
/// the cursor past the message, and the emitted response; `None` when the
/// buffer is exhausted before a whole message is available.
pub open spec fn session_next(st: SessionState, input: Seq<u8>, pos: int) -> Option<
    (SessionState, int, SpecResponse),
>
    decreases frame_measure(st.frame, input, pos),
    via session_next_decreases
{
    match frame_next(st.frame, input, pos) {
        None => None,
        Some((f2, pos2, ch, cmd)) => {
            let st2 = SessionState { frame: f2, node_id: st.node_id };
            if cmd < 0x40 {
                Some(
                    (
                        st2,
                        pos2,
                        SpecResponse::Data {
                            ch,
                            id: st.node_id,
                            val: SpecValue::Int(cmd as i32),
                        },
                    ),
                )
            } else if cmd < 0x80 {
                session_next(st2, input, pos2)
            } else if cmd < 0xd0 {
                let len: nat = if cmd < 0xc0 {
                    (cmd - 0x80 + 1) as nat
                } else {
                    (cmd - 0xc0 + 1) as nat
                };
                match frame_take(f2, input, pos2, len) {
                    None => None,
                    Some((f3, pos3, bs)) => Some(
                        (
                            SessionState { frame: f3, node_id: st.node_id },
                            pos3,
                            SpecResponse::Data {
                                ch,
                                id: st.node_id,
                                val: SpecValue::Text(bs),
                            },
                        ),
                    ),
                }
            } else if cmd == 0xd0 {
                Some(
                    (
                        st2,
                        pos2,
                        SpecResponse::Data {
                            ch,
                            id: st.node_id,
                            val: SpecValue::Text(Seq::empty()),
                        },
                    ),
                )
            } else if cmd == 0xd1 {
                match frame_next(f2, input, pos2) {
                    None => None,
                    Some((f3, pos3, ch3, lenb)) => match frame_take(
                        f3,
                        input,
                        pos3,
                        (lenb + 1) as nat,
                    ) {
                        None => None,
                        Some((f4, pos4, bs)) => Some(
                            (
                                SessionState { frame: f4, node_id: st.node_id },
                                pos4,
                                SpecResponse::Data {
                                    ch,
                                    id: st.node_id,
                                    val: SpecValue::Text(bs),
                                },
                            ),
                        ),
                    },
                }
            } else if cmd == 0xd2 {
                match frame_take(f2, input, pos2, 2) {
                    None => None,
                    Some((f3, pos3, bs)) => session_next(
                        SessionState { frame: f3, node_id: st.node_id },
                        input,
                        pos3,
                    ),
                }
            } else if cmd == 0xd3 {
                match frame_take(f2, input, pos2, 2) {
                    None => None,
                    Some((f3, pos3, bs)) => Some(
                        (
                            SessionState { frame: f3, node_id: st.node_id },
                            pos3,
                            SpecResponse::Data {
                                ch,
                                id: st.node_id,
                                val: SpecValue::Short(sign16(be16(bs[0], bs[1])) as i16),
                            },
                        ),
                    ),
                }
            } else if cmd == 0xd4 {
                match frame_take(f2, input, pos2, 4) {
                    None => None,
                    Some((f3, pos3, bs)) => Some(
                        (
                            SessionState { frame: f3, node_id: st.node_id },
                            pos3,
                            SpecResponse::Data {
                                ch,
                                id: st.node_id,
                                val: SpecValue::Int(
                                    sign32(be32(bs[0], bs[1], bs[2], bs[3])) as i32,
                                ),
                            },
                        ),
                    ),
                }
            } else if cmd == 0xd5 || cmd == 0xd6 {
                match frame_take(f2, input, pos2, 4) {
                    None => None,
                    Some((f3, pos3, bs)) => Some(
                        (
                            SessionState { frame: f3, node_id: st.node_id },
                            pos3,
                            SpecResponse::Data {
                                ch,
                                id: st.node_id,
                                val: SpecValue::Float(be32(bs[0], bs[1], bs[2], bs[3]) as u32),
                            },
                        ),
                    ),
                }
            } else if cmd == 0xd7 {
                match frame_take(f2, input, pos2, 4) {
                    None => None,
                    Some((f3, pos3, bs)) => session_next(
                        SessionState {
                            frame: f3,
                            node_id: sign32(be32(bs[0], bs[1], bs[2], bs[3])) as i32,
                        },
                        input,
                        pos3,
                    ),
                }
            } else if cmd == 0xd9 {
                match frame_take(f2, input, pos2, 1) {
                    None => None,
                    Some((f3, pos3, bs)) => session_next(
                        SessionState { frame: f3, node_id: st.node_id },
                        input,
                        pos3,
                    ),
                }
            } else if cmd == 0xd8 || (0xda <= cmd && cmd < 0xde) {
                session_next(st2, input, pos2)
            } else if cmd == 0xde {
                Some((st2, pos2, SpecResponse::End))
            } else {
                match frame_take(f2, input, pos2, 2) {
                    None => None,
                    Some((f3, pos3, lb)) => {
                        let dlen = be16(lb[0], lb[1]);
                        if dlen == 0 {
                            match frame_take(f3, input, pos3, 4) {
                                None => None,
                                Some((f4, pos4, ignored)) => Some(
                                    (
                                        SessionState { frame: f4, node_id: st.node_id },
                                        pos4,
                                        SpecResponse::Def { body: Seq::empty() },
                                    ),
                                ),
                            }
                        } else {
                            match frame_take(f3, input, pos3, dlen as nat) {
                                None => None,
                                Some((f4, pos4, body)) => Some(
                                    (
                                        SessionState { frame: f4, node_id: st.node_id },
                                        pos4,
                                        SpecResponse::Def { body },
                                    ),
                                ),
                            }
                        }
                    },
                }
            }
        },
    }
}

#[via_fn]
proof fn session_next_decreases(st: SessionState, input: Seq<u8>, pos: int) {
    if frame_next(st.frame, input, pos) is Some {
        lemma_frame_next_measure(st.frame, input, pos);
        let (f2, pos2, ch, cmd) = frame_next(st.frame, input, pos)->0;
        if frame_take(f2, input, pos2, 1) is Some {
            lemma_frame_take_measure(f2, input, pos2, 1);
        }
        if frame_take(f2, input, pos2, 2) is Some {
            lemma_frame_take_measure(f2, input, pos2, 2);
        }
        if frame_take(f2, input, pos2, 4) is Some {
            lemma_frame_take_measure(f2, input, pos2, 4);
        }
    }
}

/// Whether a response survives the exec-level conversions: string values
/// and every string of a definition block must be valid UTF-8, and the
/// block itself must parse.
pub open spec fn spec_response_ok(resp: SpecResponse) -> bool {
    match resp {
        SpecResponse::End => true,
        SpecResponse::Data { val, .. } => match val {
            SpecValue::Text(bs) => valid_utf8(bs),
            _ => true,
        },
        SpecResponse::Def { body } => spec_parse_def(body) matches Some(d) && def_strings_ok(d),
    }
}

/// The outcome of one dispatcher call: a complete message and the number
/// of input bytes consumed, or a report that the buffer ran out first.
pub enum ReadOutcome {
    Message(WingResponse, usize),
    NeedMore,
}

/// Pull `n` decoded bytes out of `input`, advancing `pos`.
fn take_bytes(st: &mut FrameState, input: &Vec<u8>, pos: &mut usize, n: usize) -> (r: Option<
    Vec<u8>,
>)
    requires
        *old(pos) <= input@.len(),
    ensures
        match frame_take(*old(st), input@, *old(pos) as int, n as nat) {
            Some((st3, pos3, bs)) => {
                &&& r matches Some(v)
                &&& v@ == bs
                &&& v@.len() == n
                &&& *final(st) == st3
                &&& *final(pos) == pos3
                &&& pos3 <= input@.len()
            },
            None => r is None,
        },
{
    let mut out: Vec<u8> = Vec::new();
    let mut k: usize = 0;
    while k < n
        invariant
            k <= n,
            *pos <= input@.len(),
            out@.len() == k,
            match frame_take(*st, input@, *pos as int, (n - k) as nat) {
                Some((st3, pos3, bs)) => frame_take(*old(st), input@, *old(pos) as int, n as nat)
                    == Some((st3, pos3, out@ + bs)),
                None => frame_take(*old(st), input@, *old(pos) as int, n as nat) is None,
            },
        decreases n - k,
    {
        let ghost out0 = out@;
        let ghost st0 = *st;
        let ghost pos0 = *pos;
        let (ch, b) = match decode_next(st, input, pos) {
            Some(t) => t,
            None => {
                return None;
            },
        };
        proof {
            lemma_frame_next_measure(st0, input@, pos0 as int);
        }
        out.push(b);
        proof {
            let r2 = frame_take(*st, input@, *pos as int, (n - k - 1) as nat);
            if r2 is Some {
                let (st3, pos3, bs) = r2->0;
                assert(out0 + (seq![b] + bs) =~= out@ + bs);
            }
        }
        k = k + 1;
    }
    proof {
        assert(out@ + Seq::<u8>::empty() =~= out@);
    }
    Some(out)
}

impl SessionState {
    /// Dispatch one message out of `input` starting at `start`.
    ///
    /// When the buffer holds a whole message, the state advances past it
    /// and the message is returned with the new cursor; a `NodeData`
    /// message carries the node id current when its command byte was
    /// dispatched and the channel that byte arrived on.  When the buffer
    /// runs out first, the state is left untouched and `NeedMore` is
    /// returned: refill the buffer and call again with the same `start`.
    /// A message whose strings are not valid UTF-8, or whose definition
    /// block does not parse, is `InvalidData`, and the state is left
    /// untouched.
    pub fn read_message(&mut self, input: &Vec<u8>, start: usize) -> (r: Result<ReadOutcome, Error>)
        requires
            start <= input@.len(),
        ensures
            match session_next(*old(self), input@, start as int) {
                None => {
                    &&& r matches Ok(o)
                    &&& o is NeedMore
                    &&& *final(self) == *old(self)
                },
                Some((st2, pos2, resp)) => {
                    if spec_response_ok(resp) {
                        &&& r matches Ok(o)
                        &&& o matches ReadOutcome::Message(m, consumed)
                        &&& m@ == resp
                        &&& consumed == pos2
                        &&& (m matches WingResponse::NodeDef(d) ==> d.wf())
                        &&& *final(self) == st2
                    } else {
                        &&& r matches Err(e)
                        &&& e is InvalidData
                        &&& *final(self) == *old(self)
                    }
                },
            },
    {
        let mut fr = self.frame;
        let mut nid = self.node_id;
        let mut pos = start;
        loop
            invariant
                pos <= input@.len(),
                session_next(*old(self), input@, start as int) == session_next(
                    SessionState { frame: fr, node_id: nid },
                    input@,
                    pos as int,
                ),
                *self == *old(self),
            decreases frame_measure(fr, input@, pos as int),
        {
            let ghost fr0 = fr;
            let ghost pos0 = pos;
            let ghost cur0 = SessionState { frame: fr0, node_id: nid };
            let (ch, cmd) = match decode_next(&mut fr, input, &mut pos) {
                Some(t) => t,
                None => {
                    return Ok(ReadOutcome::NeedMore);
                },
            };
            proof {
                lemma_frame_next_measure(fr0, input@, pos0 as int);
            }
            let ghost fr1 = fr;
            let ghost pos1 = pos;
            if cmd < 0x40 {
                let m = WingResponse::NodeData(ch, nid, WingNodeData::Integer(cmd as i32));
                self.frame = fr;
                self.node_id = nid;
                return Ok(ReadOutcome::Message(m, pos));
            } else if cmd < 0x80 {
                // inline node index: a navigation artifact, discarded
            } else if cmd < 0xd0 {
                let len: usize = if cmd < 0xc0 {
                    (cmd - 0x80 + 1) as usize
                } else {
                    (cmd - 0xc0 + 1) as usize
                };
                let bs = match take_bytes(&mut fr, input, &mut pos, len) {
                    Some(v) => v,
                    None => {
                        return Ok(ReadOutcome::NeedMore);
                    },
                };
                let ghost bsg = bs@;
                let s = match crate::text::bytes_to_string(bs) {
                    Some(s) => s,
                    None => {
                        return Err(Error::InvalidData);
                    },
                };
                proof {
                    vstd::utf8::decode_utf8_encode_utf8(bsg);
                }
                let m = WingResponse::NodeData(ch, nid, WingNodeData::Text(s));
                self.frame = fr;
                self.node_id = nid;
                return Ok(ReadOutcome::Message(m, pos));
            } else if cmd == 0xd0 {
                let s = match crate::text::bytes_to_string(Vec::new()) {
                    Some(s) => s,
                    None => {
                        return Err(Error::InvalidData);
                    },
                };
                proof {
                    vstd::utf8::decode_utf8_encode_utf8(Seq::<u8>::empty());
                }
                let m = WingResponse::NodeData(ch, nid, WingNodeData::Text(s));
                self.frame = fr;
                self.node_id = nid;
                return Ok(ReadOutcome::Message(m, pos));
            } else if cmd == 0xd1 {
                let (_lch, lenb) = match decode_next(&mut fr, input, &mut pos) {
                    Some(t) => t,
                    None => {
                        return Ok(ReadOutcome::NeedMore);
                    },
                };
                proof {
                    lemma_frame_next_measure(fr1, input@, pos1 as int);
                }
                let bs = match take_bytes(&mut fr, input, &mut pos, (lenb as usize) + 1) {
                    Some(v) => v,
                    None => {
                        return Ok(ReadOutcome::NeedMore);
                    },
                };
                let ghost bsg = bs@;
                let s = match crate::text::bytes_to_string(bs) {
                    Some(s) => s,
                    None => {
                        return Err(Error::InvalidData);
                    },
                };
                proof {
                    vstd::utf8::decode_utf8_encode_utf8(bsg);
                }
                let m = WingResponse::NodeData(ch, nid, WingNodeData::Text(s));
                self.frame = fr;
                self.node_id = nid;
                return Ok(ReadOutcome::Message(m, pos));
            } else if cmd == 0xd2 {
                match take_bytes(&mut fr, input, &mut pos, 2) {
                    Some(_) => (),
                    None => {
                        return Ok(ReadOutcome::NeedMore);
                    },
                };
                proof {
                    lemma_frame_take_measure(fr1, input@, pos1 as int, 2);
                }
            } else if cmd == 0xd3 {
                let bs = match take_bytes(&mut fr, input, &mut pos, 2) {
                    Some(v) => v,
                    None => {
                        return Ok(ReadOutcome::NeedMore);
                    },
                };
                let v = crate::bytes::i16_from_be(bs[0], bs[1]);
                let m = WingResponse::NodeData(ch, nid, WingNodeData::Short(v));
                self.frame = fr;
                self.node_id = nid;
                return Ok(ReadOutcome::Message(m, pos));
            } else if cmd == 0xd4 {
                let bs = match take_bytes(&mut fr, input, &mut pos, 4) {
                    Some(v) => v,
                    None => {
                        return Ok(ReadOutcome::NeedMore);
                    },
                };
                let v = crate::bytes::i32_from_be(bs[0], bs[1], bs[2], bs[3]);
                let m = WingResponse::NodeData(ch, nid, WingNodeData::Integer(v));
                self.frame = fr;
                self.node_id = nid;
                return Ok(ReadOutcome::Message(m, pos));
            } else if cmd == 0xd5 || cmd == 0xd6 {
                let bs = match take_bytes(&mut fr, input, &mut pos, 4) {
                    Some(v) => v,
                    None => {
                        return Ok(ReadOutcome::NeedMore);
                    },
                };
                let bits = crate::bytes::u32_from_be(bs[0], bs[1], bs[2], bs[3]);
                let m = WingResponse::NodeData(ch, nid, WingNodeData::FloatBits(bits));
                self.frame = fr;
                self.node_id = nid;
                return Ok(ReadOutcome::Message(m, pos));
            } else if cmd == 0xd7 {
                let bs = match take_bytes(&mut fr, input, &mut pos, 4) {
                    Some(v) => v,
                    None => {
                        return Ok(ReadOutcome::NeedMore);
                    },
                };
                nid = crate::bytes::i32_from_be(bs[0], bs[1], bs[2], bs[3]);
                proof {
                    lemma_frame_take_measure(fr1, input@, pos1 as int, 4);
                }
            } else if cmd == 0xd9 {
                match take_bytes(&mut fr, input, &mut pos, 1) {
                    Some(_) => (),
                    None => {
                        return Ok(ReadOutcome::NeedMore);
                    },
                };
                proof {
                    lemma_frame_take_measure(fr1, input@, pos1 as int, 1);
                }
            } else if cmd == 0xd8 || (0xda <= cmd && cmd < 0xde) {
                // click, go-to-root, go-up, request-data, request-def:
                // no payload, discarded
            } else if cmd == 0xde {
                self.frame = fr;
                self.node_id = nid;
                return Ok(ReadOutcome::Message(WingResponse::RequestEnd, pos));
            } else {
                let lb = match take_bytes(&mut fr, input, &mut pos, 2) {
                    Some(v) => v,
                    None => {
                        return Ok(ReadOutcome::NeedMore);
                    },
                };
                let dlen = crate::bytes::u16_from_be(lb[0], lb[1]);
                let body: Vec<u8>;
                if dlen == 0 {
                    match take_bytes(&mut fr, input, &mut pos, 4) {
                        Some(_) => (),
                        None => {
                            return Ok(ReadOutcome::NeedMore);
                        },
                    };
                    body = Vec::new();
                } else {
                    body = match take_bytes(&mut fr, input, &mut pos, dlen as usize) {
                        Some(v) => v,
                        None => {
                            return Ok(ReadOutcome::NeedMore);
                        },
                    };
                }
                let def = match WingNodeDef::from_bytes(&body) {
                    Ok(d) => d,
                    Err(_) => {
                        return Err(Error::InvalidData);
                    },
                };
                let m = WingResponse::NodeDef(def);
                self.frame = fr;
                self.node_id = nid;
                return Ok(ReadOutcome::Message(m, pos));
            }
        }
    }
}

} // verus!
