//! The meter subsystem's codecs.
//!
//! Meter telemetry is subscribed over the TCP channel and delivered as UDP
//! datagrams on an ephemeral local port.  This module builds the
//! subscription and keepalive frames and decodes the datagrams; the
//! sockets themselves live outside the crate.

use vstd::prelude::*;
use crate::bytes::{be16, be16_bytes, sign16};

verus! {

/// One meter source to subscribe to.  The indexed selectors carry the
/// source's number on the console.
#[derive(Clone, Copy, PartialEq, Eq, Structural, Debug)]
pub enum Meter {
    Channel(u8),
    Aux(u8),
    Bus(u8),
    Main(u8),
    Matrix(u8),
    Dca(u8),
    Fx(u8),
    Source(u8),
    Output(u8),
    Monitor,
    Rta,
    Channel2(u8),
    Aux2(u8),
    Bus2(u8),
    Main2(u8),
    Matrix2(u8),
}

/// The wire bytes of one meter selector: a tag byte, and the source
/// number for the indexed selectors.
pub open spec fn selector_bytes(m: Meter) -> Seq<u8> {
    match m {
        Meter::Channel(n) => seq![0xa0u8, n],
        Meter::Aux(n) => seq![0xa1u8, n],
        Meter::Bus(n) => seq![0xa2u8, n],
        Meter::Main(n) => seq![0xa3u8, n],
        Meter::Matrix(n) => seq![0xa4u8, n],
        Meter::Dca(n) => seq![0xa5u8, n],
        Meter::Fx(n) => seq![0xa6u8, n],
        Meter::Source(n) => seq![0xa7u8, n],
        Meter::Output(n) => seq![0xa8u8, n],
        Meter::Monitor => seq![0xa9u8],
        Meter::Rta => seq![0xaau8],
        Meter::Channel2(n) => seq![0xabu8, n],
        Meter::Aux2(n) => seq![0xacu8, n],
        Meter::Bus2(n) => seq![0xadu8, n],
        Meter::Main2(n) => seq![0xaeu8, n],
        Meter::Matrix2(n) => seq![0xafu8, n],
    }
}

/// The selectors' bytes, in order.
pub open spec fn selectors_bytes(ms: Seq<Meter>) -> Seq<u8>
    decreases ms.len(),
{
    if ms.len() == 0 {
        Seq::empty()
    } else {
        selector_bytes(ms[0]) + selectors_bytes(ms.drop_first())
    }
}

/// A whole meter subscription frame: header with the local UDP port and
/// the chosen meter id, the selectors in order, and the terminator.
pub open spec fn meter_request_frame(port: u16, meter_id: u16, ms: Seq<Meter>) -> Seq<u8> {
    seq![0xdfu8, 0xd3u8, 0xd3u8] + be16_bytes(port as int) + seq![0xd4u8] + be16_bytes(
        meter_id as int,
    ) + be16_bytes(port as int) + seq![0xdcu8] + selectors_bytes(ms) + seq![0xdeu8, 0xdfu8, 0xd1u8]
}

/// The keepalive frame for one subscribed meter id.
pub open spec fn meter_keepalive_frame(id: u16, port: u16) -> Seq<u8> {
    seq![0xdfu8, 0xd3u8, 0xd4u8] + be16_bytes(id as int) + be16_bytes(port as int) + seq![
        0xdfu8,
        0xd1u8,
    ]
}

/// The keepalive frames for every allocated meter id, highest first.
pub open spec fn meter_keepalive_all(next_id: u16, port: u16) -> Seq<u8>
    decreases next_id,
{
    if next_id == 0 {
        Seq::empty()
    } else {
        meter_keepalive_frame(next_id, port) + meter_keepalive_all((next_id - 1) as u16, port)
    }
}

/// Append one selector's bytes.
fn push_selector(buf: &mut Vec<u8>, m: &Meter)
    ensures
        final(buf)@ == old(buf)@ + selector_bytes(*m),
{
    match m {
        Meter::Channel(n) => {
            buf.push(0xa0);
            buf.push(*n);
        },
        Meter::Aux(n) => {
            buf.push(0xa1);
            buf.push(*n);
        },
        Meter::Bus(n) => {
            buf.push(0xa2);
            buf.push(*n);
        },
        Meter::Main(n) => {
            buf.push(0xa3);
            buf.push(*n);
        },
        Meter::Matrix(n) => {
            buf.push(0xa4);
            buf.push(*n);
        },
        Meter::Dca(n) => {
            buf.push(0xa5);
            buf.push(*n);
        },
        Meter::Fx(n) => {
            buf.push(0xa6);
            buf.push(*n);
        },
        Meter::Source(n) => {
            buf.push(0xa7);
            buf.push(*n);
        },
        Meter::Output(n) => {
            buf.push(0xa8);
            buf.push(*n);
        },
        Meter::Monitor => {
            buf.push(0xa9);
        },
        Meter::Rta => {
            buf.push(0xaa);
        },
        Meter::Channel2(n) => {
            buf.push(0xab);
            buf.push(*n);
        },
        Meter::Aux2(n) => {
            buf.push(0xac);
            buf.push(*n);
        },
        Meter::Bus2(n) => {
            buf.push(0xad);
            buf.push(*n);
        },
        Meter::Main2(n) => {
            buf.push(0xae);
            buf.push(*n);
        },
        Meter::Matrix2(n) => {
            buf.push(0xaf);
            buf.push(*n);
        },
    }
    assert(buf@ =~= old(buf)@ + selector_bytes(*m));
}

/// The selectors' bytes concatenate one selector at a time.
proof fn lemma_selectors_snoc(ms: Seq<Meter>, m: Meter)
    ensures
        selectors_bytes(ms.push(m)) == selectors_bytes(ms) + selector_bytes(m),
    decreases ms.len(),
{
    if ms.len() == 0 {
        let s1 = ms.push(m);
        assert(s1[0] == m);
        assert(s1.drop_first() =~= Seq::<Meter>::empty());
        assert(selectors_bytes(s1) == selector_bytes(s1[0]) + selectors_bytes(s1.drop_first()));
        assert(selector_bytes(m) + Seq::<u8>::empty() =~= selector_bytes(m));
        assert(selectors_bytes(ms) + selector_bytes(m) =~= selector_bytes(m));
    } else {
        assert(ms.push(m).drop_first() =~= ms.drop_first().push(m));
        lemma_selectors_snoc(ms.drop_first(), m);
        assert(selector_bytes(ms[0]) + (selectors_bytes(ms.drop_first()) + selector_bytes(m))
            =~= (selector_bytes(ms[0]) + selectors_bytes(ms.drop_first())) + selector_bytes(m));
    }
}

/// The bytes that subscribe the given meters, reported to the console
/// against the local UDP `port` and tagged with `meter_id`.
pub fn encode_meter_request(port: u16, meter_id: u16, meters: &Vec<Meter>) -> (r: Vec<u8>)
    ensures
        r@ == meter_request_frame(port, meter_id, meters@),
{
    let mut buf: Vec<u8> = Vec::new();
    buf.push(0xdf);
    buf.push(0xd3);
    buf.push(0xd3);
    crate::bytes::push_be16(&mut buf, port);
    buf.push(0xd4);
    crate::bytes::push_be16(&mut buf, meter_id);
    crate::bytes::push_be16(&mut buf, port);
    buf.push(0xdc);
    let ghost header = buf@;
    proof {
        assert(selectors_bytes(meters@.subrange(0, 0)) =~= Seq::<u8>::empty());
        assert(header + Seq::<u8>::empty() =~= header);
    }
    let mut i: usize = 0;
    while i < meters.len()
        invariant
            i <= meters@.len(),
            buf@ == header + selectors_bytes(meters@.subrange(0, i as int)),
        decreases meters@.len() - i,
    {
        push_selector(&mut buf, &meters[i]);
        proof {
            lemma_selectors_snoc(meters@.subrange(0, i as int), meters@[i as int]);
            assert(meters@.subrange(0, i + 1) =~= meters@.subrange(0, i as int).push(
                meters@[i as int],
            ));
            assert(header + selectors_bytes(meters@.subrange(0, i as int)) + selector_bytes(
                meters@[i as int],
            ) =~= header + (selectors_bytes(meters@.subrange(0, i as int)) + selector_bytes(
                meters@[i as int],
            )));
        }
        i = i + 1;
    }
    buf.push(0xde);
    buf.push(0xdf);
    buf.push(0xd1);
    proof {
        assert(meters@.subrange(0, meters@.len() as int) =~= meters@);
        assert(buf@ =~= meter_request_frame(port, meter_id, meters@));
    }
    buf
}

/// The keepalive bytes for every allocated meter id, highest first.
pub fn encode_meter_keepalive(next_meter_id: u16, port: u16) -> (r: Vec<u8>)
    ensures
        r@ == meter_keepalive_all(next_meter_id, port),
{
    let mut buf: Vec<u8> = Vec::new();
    let mut id: u16 = next_meter_id;
    while id > 0
        invariant
            id <= next_meter_id,
            buf@ + meter_keepalive_all(id, port) == meter_keepalive_all(next_meter_id, port),
        decreases id,
    {
        let ghost buf0 = buf@;
        buf.push(0xdf);
        buf.push(0xd3);
        buf.push(0xd4);
        crate::bytes::push_be16(&mut buf, id);
        crate::bytes::push_be16(&mut buf, port);
        buf.push(0xdf);
        buf.push(0xd1);
        proof {
            assert(buf@ =~= buf0 + meter_keepalive_frame(id, port));
            assert((buf0 + meter_keepalive_frame(id, port)) + meter_keepalive_all(
                (id - 1) as u16,
                port,
            ) =~= buf0 + (meter_keepalive_frame(id, port) + meter_keepalive_all(
                (id - 1) as u16,
                port,
            )));
        }
        id = id - 1;
    }
    proof {
        assert(buf@ + Seq::<u8>::empty() =~= buf@);
    }
    buf
}

/// The samples of a meter datagram: bytes four onward read as big-endian
/// signed 16-bit pairs, a trailing odd byte ignored.
pub open spec fn meter_samples(b: Seq<u8>) -> Seq<i16> {
    Seq::new(((b.len() - 4) / 2) as nat, |i: int| sign16(be16(b[4 + 2 * i], b[5 + 2 * i])) as i16)
}

/// Decode one meter datagram: the first two bytes are the meter id, bytes
/// four onward are the samples; bytes two and three are reserved.
pub fn parse_meter_datagram(buf: &Vec<u8>) -> (r: (u16, Vec<i16>))
    requires
        buf@.len() >= 4,
    ensures
        r.0 == be16(buf@[0], buf@[1]),
        r.1@ == meter_samples(buf@),
{
    let id = crate::bytes::u16_from_be(buf[0], buf[1]);
    let mut samples: Vec<i16> = Vec::new();
    let n: usize = (buf.len() - 4) / 2;
    let mut i: usize = 0;
    while i < n
        invariant
            i <= n,
            n == (buf@.len() - 4) / 2,
            4 <= buf@.len() <= usize::MAX,
            samples@.len() == i,
            forall|j: int|
                0 <= j < i ==> samples@[j] == sign16(
                    be16(buf@[4 + 2 * j], buf@[5 + 2 * j]),
                ) as i16,
        decreases n - i,
    {
        proof {
            vstd::arithmetic::div_mod::lemma_fundamental_div_mod(buf@.len() - 4, 2);
            vstd::arithmetic::div_mod::lemma_mod_division_less_than_divisor(buf@.len() - 4, 2);
            assert(2 * n <= buf@.len() - 4);
            assert(2 * i + 2 <= 2 * n);
        }
        let v = crate::bytes::i16_from_be(buf[4 + 2 * i], buf[5 + 2 * i]);
        samples.push(v);
        i = i + 1;
    }
    proof {
        assert(samples@ =~= meter_samples(buf@));
    }
    (id, samples)
}

} // verus!
