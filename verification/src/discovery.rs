//! Discovery probe and reply codec.
//!
//! A console is found by broadcasting the text `WING?` and listening for
//! replies of the form `WING,<ip>,<name>,<model>,<serial>,<firmware>`,
//! possibly with further fields.  The sockets live outside the crate;
//! this module builds the probe and parses one reply payload.

use vstd::prelude::*;
use vstd::utf8::{encode_utf8, valid_utf8};
use crate::DiscoveryInfo;

verus! {

/// The comma byte.
pub const COMMA: u8 = 0x2c;

/// A byte run split at every comma.  The result always holds at least one
/// token; empty runs between commas stay as empty tokens.
pub open spec fn split_commas(b: Seq<u8>) -> Seq<Seq<u8>>
    decreases b.len(),
{
    if b.len() == 0 {
        seq![Seq::empty()]
    } else if b[0] == COMMA {
        seq![Seq::<u8>::empty()] + split_commas(b.drop_first())
    } else {
        let rest = split_commas(b.drop_first());
        seq![seq![b[0]] + rest[0]] + rest.drop_first()
    }
}

/// Splitting yields at least one token.
pub proof fn lemma_split_nonempty(b: Seq<u8>)
    ensures
        split_commas(b).len() >= 1,
    decreases b.len(),
{
    if b.len() == 0 {
    } else if b[0] == COMMA {
    } else {
        lemma_split_nonempty(b.drop_first());
    }
}

/// The reply tag, the UTF-8 bytes of `WING`.
pub open spec fn wing_tag() -> Seq<u8> {
    seq![0x57u8, 0x49u8, 0x4eu8, 0x47u8]
}

/// The fields of a discovery reply: tokens one to five of the payload
/// split at commas, provided there are at least six tokens, the first is
/// `WING`, and each field is valid UTF-8.
pub open spec fn spec_discovery(b: Seq<u8>) -> Option<
    (Seq<u8>, Seq<u8>, Seq<u8>, Seq<u8>, Seq<u8>),
> {
    let ts = split_commas(b);
    if ts.len() >= 6 && ts[0] == wing_tag() && valid_utf8(ts[1]) && valid_utf8(ts[2]) && valid_utf8(
        ts[3],
    ) && valid_utf8(ts[4]) && valid_utf8(ts[5]) {
        Some((ts[1], ts[2], ts[3], ts[4], ts[5]))
    } else {
        None
    }
}

/// The discovery probe text, the UTF-8 bytes of `WING?`.
pub fn encode_discovery_probe() -> (r: Vec<u8>)
    ensures
        r@ == wing_tag() + seq![0x3fu8],
{
    let mut buf: Vec<u8> = Vec::new();
    buf.push(0x57);
    buf.push(0x49);
    buf.push(0x4e);
    buf.push(0x47);
    buf.push(0x3f);
    assert(buf@ =~= wing_tag() + seq![0x3fu8]);
    buf
}

/// Split a payload at every comma.
fn split_payload(b: &Vec<u8>) -> (r: Vec<Vec<u8>>)
    ensures
        r.deep_view() == split_commas(b@),
{
    let mut tokens: Vec<Vec<u8>> = Vec::new();
    let mut cur: Vec<u8> = Vec::new();
    let mut i: usize = 0;
    proof {
        assert(b@.subrange(0, b@.len() as int) =~= b@);
        lemma_split_nonempty(b@);
        let rest = split_commas(b@);
        assert(cur@ + rest[0] =~= rest[0]);
        assert(tokens.deep_view() =~= Seq::<Seq<u8>>::empty());
        assert(tokens.deep_view() + seq![cur@ + rest[0]] + rest.drop_first() =~~= rest);
    }
    while i < b.len()
        invariant
            i <= b@.len(),
            ({
                let rest = split_commas(b@.subrange(i as int, b@.len() as int));
                split_commas(b@) == tokens.deep_view() + seq![cur@ + rest[0]]
                    + rest.drop_first()
            }),
        decreases b@.len() - i,
    {
        let ghost resti = split_commas(b@.subrange(i as int, b@.len() as int));
        proof {
            lemma_split_nonempty(b@.subrange(i + 1, b@.len() as int));
            assert(b@.subrange(i as int, b@.len() as int).drop_first() =~= b@.subrange(
                i + 1,
                b@.len() as int,
            ));
        }
        let ghost restn = split_commas(b@.subrange(i + 1, b@.len() as int));
        let c = b[i];
        if c == COMMA {
            let ghost toks0 = tokens.deep_view();
            let ghost curp = cur@;
            tokens.push(cur);
            cur = Vec::new();
            proof {
                assert(resti == seq![Seq::<u8>::empty()] + restn);
                assert(resti[0] =~= Seq::<u8>::empty());
                assert(resti.drop_first() =~= restn);
                assert(curp + resti[0] =~= curp);
                assert(cur@ + restn[0] =~= restn[0]);
                assert(tokens.deep_view() =~~= toks0.push(curp + resti[0]));
                assert(toks0 + seq![curp + resti[0]] + resti.drop_first() =~~= tokens.deep_view()
                    + seq![cur@ + restn[0]] + restn.drop_first());
            }
        } else {
            let ghost cur0 = cur@;
            cur.push(c);
            proof {
                assert(resti == seq![seq![c] + restn[0]] + restn.drop_first());
                assert(resti[0] =~= seq![c] + restn[0]);
                assert(resti.drop_first() =~= restn.drop_first());
                assert(cur0 + (seq![c] + restn[0]) =~= cur@ + restn[0]);
                assert(tokens.deep_view() + seq![cur0 + resti[0]] + resti.drop_first()
                    =~~= tokens.deep_view() + seq![cur@ + restn[0]] + restn.drop_first());
            }
        }
        i = i + 1;
    }
    let ghost toks0 = tokens.deep_view();
    let ghost curg = cur@;
    tokens.push(cur);
    proof {
        let restend = split_commas(b@.subrange(b@.len() as int, b@.len() as int));
        assert(b@.subrange(b@.len() as int, b@.len() as int) =~= Seq::<u8>::empty());
        assert(restend == seq![Seq::<u8>::empty()]);
        assert(curg + restend[0] =~= curg);
        assert(restend.drop_first() =~= Seq::<Seq<u8>>::empty());
        assert(tokens.deep_view() =~~= toks0 + seq![curg + restend[0]] + restend.drop_first());
    }
    tokens
}

/// Whether a token is exactly the reply tag.
fn is_wing_tag(t: &Vec<u8>) -> (r: bool)
    ensures
        r == (t@ == wing_tag()),
{
    let r = t.len() == 4 && t[0] == 0x57 && t[1] == 0x49 && t[2] == 0x4e && t[3] == 0x47;
    proof {
        if r {
            assert(t@ =~= wing_tag());
        }
    }
    r
}

/// Parse one discovery reply payload.  Yields the console's address and
/// identity exactly when the payload has at least six comma-separated
/// tokens, starts with `WING`, and the five fields are valid UTF-8.
pub fn parse_discovery_reply(payload: &Vec<u8>) -> (r: Option<DiscoveryInfo>)
    ensures
        match spec_discovery(payload@) {
            Some((ip, name, model, serial, firmware)) => {
                &&& r matches Some(d)
                &&& encode_utf8(d.ip@) == ip
                &&& encode_utf8(d.name@) == name
                &&& encode_utf8(d.model@) == model
                &&& encode_utf8(d.serial@) == serial
                &&& encode_utf8(d.firmware@) == firmware
            },
            None => r is None,
        },
{
    let mut tokens = split_payload(payload);
    let ghost toksg = tokens@;
    if tokens.len() < 6 {
        return None;
    }
    proof {
        let ts = split_commas(payload@);
        assert(ts[0] =~= toksg[0]@);
    }
    if !is_wing_tag(&tokens[0]) {
        return None;
    }
    let firmware_b = tokens.remove(5);
    let serial_b = tokens.remove(4);
    let model_b = tokens.remove(3);
    let name_b = tokens.remove(2);
    let ip_b = tokens.remove(1);
    let ghost ipg = ip_b@;
    let ghost nameg = name_b@;
    let ghost modelg = model_b@;
    let ghost serialg = serial_b@;
    let ghost firmwareg = firmware_b@;
    proof {
        let ts = split_commas(payload@);
        assert(ipg =~= ts[1]);
        assert(nameg =~= ts[2]);
        assert(modelg =~= ts[3]);
        assert(serialg =~= ts[4]);
        assert(firmwareg =~= ts[5]);
    }
    let ip = match crate::text::bytes_to_string(ip_b) {
        Some(s) => s,
        None => {
            return None;
        },
    };
    let name = match crate::text::bytes_to_string(name_b) {
        Some(s) => s,
        None => {
            return None;
        },
    };
    let model = match crate::text::bytes_to_string(model_b) {
        Some(s) => s,
        None => {
            return None;
        },
    };
    let serial = match crate::text::bytes_to_string(serial_b) {
        Some(s) => s,
        None => {
            return None;
        },
    };
    let firmware = match crate::text::bytes_to_string(firmware_b) {
        Some(s) => s,
        None => {
            return None;
        },
    };
    proof {
        vstd::utf8::decode_utf8_encode_utf8(ipg);
        vstd::utf8::decode_utf8_encode_utf8(nameg);
        vstd::utf8::decode_utf8_encode_utf8(modelg);
        vstd::utf8::decode_utf8_encode_utf8(serialg);
        vstd::utf8::decode_utf8_encode_utf8(firmwareg);
    }
    Some(DiscoveryInfo { ip, name, model, serial, firmware })
}

} // verus!
