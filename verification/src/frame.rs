//! Escape-byte frame decoder with channel demultiplexing.
//!
//! Inbound traffic is a single byte stream in which `0xDF` opens an escape
//! sequence.  After an escape, `0xDF` and `0xDE` both stand for a literal
//! `0xDF`; `0xD0..=0xDD` switches the current channel without emitting
//! anything; any other byte, while a channel is active, terminates the
//! preceding sub-stream: the decoder emits a synthetic `0xDF` and holds the
//! byte back so the next pull returns it.  At most one byte lives in the
//! pushback slot.
//!
//! The decoder is a pure state machine: callers hand it an in-memory buffer
//! and a cursor, and it either emits one `(channel, byte)` pair or reports
//! that the buffer is exhausted.  `frame_next` is the specification-level
//! mirror of one pull.

use vstd::prelude::*;

verus! {

/// The escape byte.
pub const ESCAPE: u8 = 0xdf;

/// State of the frame decoder between two pulls.
#[derive(Clone, Copy, PartialEq, Eq, Structural)]
pub struct FrameState {
    /// True after a `0xDF` whose meaning is not yet resolved.
    pub esc: bool,
    /// Current channel; `-1` until a channel switch is seen.
    pub channel: i8,
    /// Byte held back after a synthetic `0xDF` emission.
    pub pushback: Option<u8>,
}

impl FrameState {
    /// The state a fresh connection starts in.
    pub fn new() -> (r: FrameState)
        ensures
            r == FrameState::initial(),
    {
        FrameState { esc: false, channel: -1, pushback: None }
    }

    /// The state a fresh connection starts in.
    pub open spec fn initial() -> FrameState {
        FrameState { esc: false, channel: -1i8, pushback: None }
    }
}

/// One step of the decoder on input byte `b`, outside the pushback slot:
/// the successor state and the emitted byte, if any.  An emitted pair
/// carries `st.channel`, which emitting steps never change.
pub open spec fn frame_step(st: FrameState, b: u8) -> (FrameState, Option<u8>) {
    if !st.esc {
        if b == ESCAPE {
            (FrameState { esc: true, ..st }, None)
        } else {
            (st, Some(b))
        }
    } else if b == 0xdf || b == 0xde {
        (FrameState { esc: false, ..st }, Some(0xdf))
    } else if 0xd0 <= b && b < 0xde {
        (FrameState { esc: false, channel: (b - 0xd0) as i8, ..st }, None)
    } else if st.channel >= 0 {
        (FrameState { esc: false, pushback: Some(b), ..st }, Some(0xdf))
    } else {
        (FrameState { esc: false, ..st }, Some(b))
    }
}

/// One pull from the decoder reading `input` from `pos`: the successor
/// state, the new cursor and the emitted `(channel, byte)` pair, or `None`
/// when the buffer is exhausted before anything is emitted.
pub open spec fn frame_next(st: FrameState, input: Seq<u8>, pos: int) -> Option<
    (FrameState, int, i8, u8),
>
    decreases input.len() - pos,
{
    if st.pushback is Some {
        Some((FrameState { pushback: None, ..st }, pos, st.channel, st.pushback->0))
    } else if pos < 0 || pos >= input.len() {
        None
    } else {
        let (st2, out) = frame_step(st, input[pos]);
        match out {
            Some(v) => Some((st2, pos + 1, st.channel, v)),
            None => frame_next(st2, input, pos + 1),
        }
    }
}

/// Termination measure for repeated pulls: two per unread byte, one more
/// while a byte waits in the pushback slot.
pub open spec fn frame_measure(st: FrameState, input: Seq<u8>, pos: int) -> int {
    2 * (if pos <= input.len() {
        input.len() - pos
    } else {
        0
    }) + (if st.pushback is Some {
        1int
    } else {
        0int
    })
}

/// Every successful pull strictly shrinks the measure and never moves the
/// cursor backwards or past the end.
pub proof fn lemma_frame_next_measure(st: FrameState, input: Seq<u8>, pos: int)
    requires
        frame_next(st, input, pos) is Some,
    ensures
        ({
            let (st2, pos2, ch, b) = frame_next(st, input, pos)->0;
            &&& pos <= pos2
            &&& pos2 <= input.len() || pos2 == pos
            &&& 0 <= frame_measure(st2, input, pos2) < frame_measure(st, input, pos)
        }),
    decreases input.len() - pos,
{
    if st.pushback is Some {
    } else if pos < 0 || pos >= input.len() {
    } else {
        let (st2, out) = frame_step(st, input[pos]);
        match out {
            Some(v) => {},
            None => {
                lemma_frame_next_measure(st2, input, pos + 1);
            },
        }
    }
}

/// Both escaped forms of the literal escape byte decode to a single
/// `0xDF`: with no escape pending, `0xDF 0xDF` and `0xDF 0xDE` each emit
/// exactly one `(channel, 0xDF)` pair on the current channel and leave the
/// channel and the pushback slot alone.
pub proof fn lemma_escaped_literal(st: FrameState, input: Seq<u8>, pos: int)
    requires
        !st.esc,
        st.pushback is None,
        0 <= pos,
        pos + 1 < input.len(),
        input[pos] == 0xdf,
        input[pos + 1] == 0xdf || input[pos + 1] == 0xde,
    ensures
        frame_next(st, input, pos) == Some(
            (
                FrameState { esc: false, channel: st.channel, pushback: None },
                pos + 2,
                st.channel,
                0xdfu8,
            ),
        ),
{
    assert(frame_next(st, input, pos) == frame_next(FrameState { esc: true, ..st }, input, pos + 1));
}

/// A channel-switch control emits nothing: decoding after `0xDF 0xD0+c`
/// continues exactly as a fresh pull in the updated channel `c`.  In
/// particular no byte reaches the raw buffer between the escape and the
/// next payload byte.
pub proof fn lemma_channel_switch(st: FrameState, input: Seq<u8>, pos: int)
    requires
        !st.esc,
        st.pushback is None,
        0 <= pos,
        pos + 1 < input.len(),
        input[pos] == 0xdf,
        0xd0 <= input[pos + 1] < 0xde,
    ensures
        frame_next(st, input, pos) == frame_next(
            FrameState {
                esc: false,
                channel: (input[pos + 1] - 0xd0) as i8,
                pushback: None,
            },
            input,
            pos + 2,
        ),
{
    assert(frame_next(st, input, pos) == frame_next(FrameState { esc: true, ..st }, input, pos + 1));
}

/// After a channel switch, the next emitted pair carries the updated
/// channel id: if a plain payload byte follows `0xDF 0xD0+c`, the pull
/// emits it on channel `c`.
pub proof fn lemma_channel_switch_emits(st: FrameState, input: Seq<u8>, pos: int)
    requires
        !st.esc,
        st.pushback is None,
        0 <= pos,
        pos + 2 < input.len(),
        input[pos] == 0xdf,
        0xd0 <= input[pos + 1] < 0xde,
        input[pos + 2] != 0xdf,
    ensures
        frame_next(st, input, pos) == Some(
            (
                FrameState {
                    esc: false,
                    channel: (input[pos + 1] - 0xd0) as i8,
                    pushback: None,
                },
                pos + 3,
                (input[pos + 1] - 0xd0) as i8,
                input[pos + 2],
            ),
        ),
{
    lemma_channel_switch(st, input, pos);
}

/// Pull one decoded `(channel, byte)` pair out of `input`, advancing `pos`.
/// Returns `None` when the buffer runs out first; the caller is then
/// expected to discard the scratch state, refill and retry.
pub fn decode_next(st: &mut FrameState, input: &Vec<u8>, pos: &mut usize) -> (r: Option<(i8, u8)>)
    requires
        *old(pos) <= input@.len(),
    ensures
        match frame_next(*old(st), input@, *old(pos) as int) {
            Some((st2, pos2, ch, b)) => {
                &&& r == Some((ch, b))
                &&& *final(st) == st2
                &&& *final(pos) == pos2
            },
            None => r is None,
        },
{
    if let Some(v) = st.pushback {
        st.pushback = None;
        return Some((st.channel, v));
    }
    loop
        invariant
            *pos <= input@.len(),
            st.pushback is None,
            frame_next(*st, input@, *pos as int) == frame_next(
                *old(st),
                input@,
                *old(pos) as int,
            ),
        decreases input@.len() - *pos,
    {
        if *pos >= input.len() {
            return None;
        }
        let b = input[*pos];
        *pos = *pos + 1;
        if !st.esc {
            if b == ESCAPE {
                st.esc = true;
            } else {
                return Some((st.channel, b));
            }
        } else {
            st.esc = false;
            if b == 0xdf || b == 0xde {
                return Some((st.channel, 0xdf));
            } else if 0xd0 <= b && b < 0xde {
                st.channel = (b - 0xd0) as i8;
            } else if st.channel >= 0 {
                st.pushback = Some(b);
                return Some((st.channel, 0xdf));
            } else {
                return Some((st.channel, b));
            }
        }
    }
}

} // verus!
