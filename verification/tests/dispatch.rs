use libwing::frame::FrameState;
use libwing::node::WingNodeData;
use libwing::session::{ReadOutcome, SessionState};
use libwing::wire::{encode_set_float_bits, encode_set_int, encode_set_string_bytes};
use libwing::{Error, ResponseHandle, ResponseType, WingDiscoveryInfoHandle, WingResponse};

fn read_one(st: &mut SessionState, input: &Vec<u8>, start: usize) -> (WingResponse, usize) {
    match st.read_message(input, start) {
        Ok(ReadOutcome::Message(m, consumed)) => (m, consumed),
        Ok(ReadOutcome::NeedMore) => panic!("unexpected NeedMore"),
        Err(_) => panic!("unexpected error"),
    }
}

#[test]
fn small_integer_on_channel_two() {
    // Channel switch to 2, node id 5, inline integer 7.
    let input = vec![0xdf, 0xd2, 0xd7, 0x00, 0x00, 0x00, 0x05, 0x07];
    let mut st = SessionState::new();
    let (m, consumed) = read_one(&mut st, &input, 0);
    assert_eq!(consumed, 8);
    match m {
        WingResponse::NodeData(ch, id, WingNodeData::Integer(v)) => {
            assert_eq!(ch, 2);
            assert_eq!(id, 5);
            assert_eq!(v, 7);
        },
        _ => panic!("wrong response"),
    }
}

#[test]
fn short_string_on_channel_zero() {
    // Channel switch to 0, node id 9, two-byte string "HI".
    let input = vec![0xdf, 0xd0, 0xd7, 0x00, 0x00, 0x00, 0x09, 0x81, 0x48, 0x49];
    let mut st = SessionState::new();
    let (m, consumed) = read_one(&mut st, &input, 0);
    assert_eq!(consumed, 10);
    match m {
        WingResponse::NodeData(ch, id, WingNodeData::Text(s)) => {
            assert_eq!(ch, 0);
            assert_eq!(id, 9);
            assert_eq!(s, "HI");
        },
        _ => panic!("wrong response"),
    }
}

#[test]
fn end_marker_keeps_node_id() {
    // Set node id 5, end of request, then an inline integer: the end
    // marker must not have touched the current node id.
    let input = vec![0xd7, 0x00, 0x00, 0x00, 0x05, 0xde, 0x07];
    let mut st = SessionState::new();
    let (m, consumed) = read_one(&mut st, &input, 0);
    assert!(matches!(m, WingResponse::RequestEnd));
    assert_eq!(consumed, 6);
    let (m2, _) = read_one(&mut st, &input, consumed);
    match m2 {
        WingResponse::NodeData(_, id, WingNodeData::Integer(v)) => {
            assert_eq!(id, 5);
            assert_eq!(v, 7);
        },
        _ => panic!("wrong response"),
    }
}

#[test]
fn doubled_escape_decodes_to_literal() {
    let mut f = FrameState::new();
    let input = vec![0xdf, 0xdf];
    let mut pos: usize = 0;
    assert_eq!(f.esc, false);
    let got = libwing::frame::decode_next(&mut f, &input, &mut pos);
    assert_eq!(got, Some((-1, 0xdf)));
    assert_eq!(pos, 2);
}

#[test]
fn alternate_escape_decodes_to_literal() {
    let mut f = FrameState::new();
    let input = vec![0xdf, 0xde];
    let mut pos: usize = 0;
    let got = libwing::frame::decode_next(&mut f, &input, &mut pos);
    assert_eq!(got, Some((-1, 0xdf)));
    assert_eq!(pos, 2);
}

#[test]
fn channel_switch_updates_next_pair() {
    let mut f = FrameState::new();
    let input = vec![0xdf, 0xd2, 0x41];
    let mut pos: usize = 0;
    let got = libwing::frame::decode_next(&mut f, &input, &mut pos);
    assert_eq!(got, Some((2, 0x41)));
    assert_eq!(pos, 3);
}

#[test]
fn synthetic_escape_pushes_back() {
    // Inside a channel, an escape followed by a plain byte terminates the
    // sub-stream: a synthetic 0xDF comes out and the byte is held back.
    let mut f = FrameState::new();
    let input = vec![0xdf, 0xd1, 0xdf, 0x22];
    let mut pos: usize = 0;
    let got = libwing::frame::decode_next(&mut f, &input, &mut pos);
    assert_eq!(got, Some((1, 0xdf)));
    let got2 = libwing::frame::decode_next(&mut f, &input, &mut pos);
    assert_eq!(got2, Some((1, 0x22)));
    assert_eq!(pos, 4);
}

#[test]
fn set_int_roundtrips_inline() {
    for v in [0, 1, 0x3f] {
        let input = encode_set_int(42, v);
        let mut st = SessionState::new();
        let (m, consumed) = read_one(&mut st, &input, 0);
        assert_eq!(consumed, input.len());
        match m {
            WingResponse::NodeData(_, id, WingNodeData::Integer(got)) => {
                assert_eq!(id, 42);
                assert_eq!(got, v);
            },
            _ => panic!("wrong response"),
        }
    }
}

#[test]
fn set_int_roundtrips_short() {
    for v in [0x40, 1000, -5, -32768] {
        let input = encode_set_int(42, v);
        let mut st = SessionState::new();
        let (m, _) = read_one(&mut st, &input, 0);
        match m {
            WingResponse::NodeData(_, id, WingNodeData::Short(got)) => {
                assert_eq!(id, 42);
                assert_eq!(got as i32, v);
            },
            _ => panic!("wrong response"),
        }
    }
}

#[test]
fn set_int_roundtrips_wide() {
    for v in [100000, -100000, i32::MAX] {
        let input = encode_set_int(42, v);
        let mut st = SessionState::new();
        let (m, _) = read_one(&mut st, &input, 0);
        match m {
            WingResponse::NodeData(_, id, WingNodeData::Integer(got)) => {
                assert_eq!(id, 42);
                assert_eq!(got, v);
            },
            _ => panic!("wrong response"),
        }
    }
}

#[test]
fn set_float_roundtrips() {
    let bits = 2.5f32.to_bits();
    let input = encode_set_float_bits(13, bits);
    let mut st = SessionState::new();
    let (m, _) = read_one(&mut st, &input, 0);
    match m {
        WingResponse::NodeData(_, id, WingNodeData::FloatBits(got)) => {
            assert_eq!(id, 13);
            assert_eq!(f32::from_bits(got), 2.5);
        },
        _ => panic!("wrong response"),
    }
}

#[test]
fn set_string_roundtrips() {
    let s: Vec<u8> = b"hello console".to_vec();
    let input = encode_set_string_bytes(13, &s);
    let mut st = SessionState::new();
    let (m, _) = read_one(&mut st, &input, 0);
    match m {
        WingResponse::NodeData(_, id, WingNodeData::Text(got)) => {
            assert_eq!(id, 13);
            assert_eq!(got.as_bytes(), &s[..]);
        },
        _ => panic!("wrong response"),
    }
}

#[test]
fn set_string_roundtrips_long_form() {
    // 65 bytes is the smallest string that takes the length-byte form.
    let s = vec![0x6b; 65];
    let input = encode_set_string_bytes(21, &s);
    let mut st = SessionState::new();
    let (m, consumed) = read_one(&mut st, &input, 0);
    assert_eq!(consumed, input.len());
    match m {
        WingResponse::NodeData(_, id, WingNodeData::Text(got)) => {
            assert_eq!(id, 21);
            assert_eq!(got.as_bytes(), &s[..]);
        },
        _ => panic!("wrong response"),
    }
}

#[test]
fn multibyte_text_decodes() {
    // A two-byte UTF-8 character: the dispatcher really decodes, it does
    // not hand the raw bytes through.
    let input = vec![0x81, 0xc3, 0xa9];
    let mut st = SessionState::new();
    let (m, _) = read_one(&mut st, &input, 0);
    match m {
        WingResponse::NodeData(_, _, WingNodeData::Text(s)) => {
            assert_eq!(s.chars().count(), 1);
            assert_eq!(s.len(), 2);
        },
        _ => panic!("wrong response"),
    }
}

#[test]
fn invalid_utf8_is_invalid_data() {
    let input = vec![0x80, 0xff];
    let mut st = SessionState::new();
    let r = st.read_message(&input, 0);
    assert!(matches!(r, Err(Error::InvalidData)));
}

#[test]
fn partial_input_reports_need_more() {
    // The 16-bit form announced by 0xD3 needs two more bytes.
    let input = vec![0xd7, 0x00, 0x00, 0x00, 0x05, 0xd3, 0x01];
    let mut st = SessionState::new();
    let r = st.read_message(&input, 0);
    assert!(matches!(r, Ok(ReadOutcome::NeedMore)));
    // Refilling the buffer completes the message from the same start.
    let full = vec![0xd7, 0x00, 0x00, 0x00, 0x05, 0xd3, 0x01, 0x02];
    let (m, consumed) = read_one(&mut st, &full, 0);
    assert_eq!(consumed, 8);
    match m {
        WingResponse::NodeData(_, id, WingNodeData::Short(v)) => {
            assert_eq!(id, 5);
            assert_eq!(v, 0x0102);
        },
        _ => panic!("wrong response"),
    }
}

#[test]
fn discarded_commands_are_skipped() {
    // An inline node index, a 16-bit node index, a step, and navigation
    // controls all vanish before the next real message.
    let input = vec![0x41, 0xd2, 0x00, 0x03, 0xd9, 0x01, 0xd8, 0xda, 0xdb, 0xdc, 0xdd, 0x07];
    let mut st = SessionState::new();
    let (m, consumed) = read_one(&mut st, &input, 0);
    assert_eq!(consumed, input.len());
    assert!(matches!(m, WingResponse::NodeData(_, _, WingNodeData::Integer(7))));
}

#[test]
fn response_type_reports_kind() {
    assert_eq!(WingResponse::RequestEnd.response_type(), ResponseType::End);
    let data = WingResponse::NodeData(0, 1, WingNodeData::Integer(2));
    assert_eq!(data.response_type(), ResponseType::NodeData);
}

#[test]
fn handles_carry_their_payloads() {
    let h = ResponseHandle { response: WingResponse::RequestEnd };
    assert_eq!(h.response.response_type(), ResponseType::End);
    let d = WingDiscoveryInfoHandle { info: Vec::new() };
    assert!(d.info.is_empty());
}
