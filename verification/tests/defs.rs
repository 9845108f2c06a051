use libwing::node::{node_unit_of_code, NodeType, NodeUnit, WingNodeData, WingNodeDef};
use libwing::session::{ReadOutcome, SessionState};
use libwing::{Error, WingResponse};

fn prelude(id: i32, parent: i32, index: u16, flags: u8, type_code: u8, unit_code: u8) -> Vec<u8> {
    let mut b: Vec<u8> = Vec::new();
    b.extend_from_slice(&id.to_be_bytes());
    b.extend_from_slice(&parent.to_be_bytes());
    b.extend_from_slice(&index.to_be_bytes());
    b.push(flags);
    b.push(type_code);
    b.push(unit_code);
    b
}

fn lstr(b: &mut Vec<u8>, s: &str) {
    b.push(s.len() as u8);
    b.extend_from_slice(s.as_bytes());
}

#[test]
fn integer_definition_parses() {
    let mut b = prelude(0x1234, 0x10, 3, 1, 3, 1);
    lstr(&mut b, "lvl");
    lstr(&mut b, "level");
    b.extend_from_slice(&(-10i32).to_be_bytes());
    b.extend_from_slice(&10i32.to_be_bytes());
    b.extend_from_slice(&21i32.to_be_bytes());
    let def = WingNodeDef::from_bytes(&b).unwrap();
    assert_eq!(def.id, 0x1234);
    assert_eq!(def.parent_id, 0x10);
    assert_eq!(def.index, 3);
    assert!(def.read_only);
    assert_eq!(def.node_type, NodeType::Integer);
    assert_eq!(def.unit, NodeUnit::Decibels);
    assert_eq!(def.name, "lvl");
    assert_eq!(def.long_name, "level");
    assert_eq!(def.min_int, Some(-10));
    assert_eq!(def.max_int, Some(10));
    assert_eq!(def.steps, Some(21));
    assert_eq!(def.min_float, None);
    assert!(def.string_enum.is_none());
    assert_eq!(def.raw, b);
}

#[test]
fn float_definition_parses() {
    let mut b = prelude(7, 1, 0, 0, 6, 0);
    lstr(&mut b, "fdr");
    lstr(&mut b, "fader");
    b.extend_from_slice(&(-90.0f32).to_bits().to_be_bytes());
    b.extend_from_slice(&10.0f32.to_bits().to_be_bytes());
    b.extend_from_slice(&1001i32.to_be_bytes());
    let def = WingNodeDef::from_bytes(&b).unwrap();
    assert_eq!(def.node_type, NodeType::FaderLevel);
    assert_eq!(def.unit, NodeUnit::NoUnit);
    assert!(!def.read_only);
    assert_eq!(def.min_float.map(f32::from_bits), Some(-90.0));
    assert_eq!(def.max_float.map(f32::from_bits), Some(10.0));
    assert_eq!(def.steps, Some(1001));
}

#[test]
fn string_definition_parses() {
    let mut b = prelude(8, 1, 0, 0, 1, 0);
    lstr(&mut b, "nm");
    lstr(&mut b, "name");
    b.extend_from_slice(&16u16.to_be_bytes());
    let def = WingNodeDef::from_bytes(&b).unwrap();
    assert_eq!(def.node_type, NodeType::String);
    assert_eq!(def.max_string_len, Some(16));
}

#[test]
fn string_enum_definition_parses() {
    let mut b = prelude(9, 1, 0, 0, 2, 0);
    lstr(&mut b, "mdl");
    lstr(&mut b, "model");
    b.push(2);
    lstr(&mut b, "a");
    lstr(&mut b, "alpha");
    lstr(&mut b, "b");
    lstr(&mut b, "beta");
    let def = WingNodeDef::from_bytes(&b).unwrap();
    assert_eq!(def.node_type, NodeType::StringEnum);
    let items = def.string_enum.unwrap();
    assert_eq!(items.len(), 2);
    assert_eq!(items[0].item, "a");
    assert_eq!(items[0].long_item, "alpha");
    assert_eq!(items[1].item, "b");
    assert_eq!(items[1].long_item, "beta");
}

#[test]
fn float_enum_definition_parses() {
    let mut b = prelude(9, 1, 0, 0, 7, 0);
    lstr(&mut b, "spd");
    lstr(&mut b, "speed");
    b.push(1);
    b.extend_from_slice(&0.5f32.to_bits().to_be_bytes());
    lstr(&mut b, "half");
    let def = WingNodeDef::from_bytes(&b).unwrap();
    assert_eq!(def.node_type, NodeType::FloatEnum);
    let items = def.float_enum.unwrap();
    assert_eq!(items.len(), 1);
    assert_eq!(f32::from_bits(items[0].item), 0.5);
    assert_eq!(items[0].long_item, "half");
}

#[test]
fn node_definition_rejects_malformed() {
    // Too short.
    let b = vec![0u8; 5];
    assert!(matches!(WingNodeDef::from_bytes(&b), Err(Error::InvalidData)));
    // Unassigned type code.
    let mut b = prelude(1, 0, 0, 0, 9, 0);
    lstr(&mut b, "x");
    lstr(&mut b, "x");
    assert!(matches!(WingNodeDef::from_bytes(&b), Err(Error::InvalidData)));
    // Name running past the end.
    let mut b = prelude(1, 0, 0, 0, 0, 0);
    b.push(200);
    assert!(matches!(WingNodeDef::from_bytes(&b), Err(Error::InvalidData)));
    // Trailing byte after a complete node definition.
    let mut b = prelude(1, 0, 0, 0, 0, 0);
    lstr(&mut b, "x");
    lstr(&mut b, "x");
    b.push(0);
    assert!(matches!(WingNodeDef::from_bytes(&b), Err(Error::InvalidData)));
    // A name that is not valid UTF-8.
    let mut b = prelude(1, 0, 0, 0, 0, 0);
    b.push(1);
    b.push(0xff);
    lstr(&mut b, "x");
    assert!(matches!(WingNodeDef::from_bytes(&b), Err(Error::InvalidData)));
}

#[test]
fn definition_block_through_dispatcher() {
    let mut body = prelude(0x21, 0x01, 0, 0, 0, 0);
    lstr(&mut body, "ch");
    lstr(&mut body, "channel");
    // An escaped 0xDF opens the definition block; a 16-bit length
    // follows, then the body travels through the frame decoder.
    let mut input = vec![0xdf, 0xde];
    input.extend_from_slice(&(body.len() as u16).to_be_bytes());
    input.extend_from_slice(&body);
    let mut st = SessionState::new();
    match st.read_message(&input, 0) {
        Ok(ReadOutcome::Message(WingResponse::NodeDef(def), consumed)) => {
            assert_eq!(consumed, input.len());
            assert_eq!(def.id, 0x21);
            assert_eq!(def.parent_id, 0x01);
            assert_eq!(def.name, "ch");
            assert_eq!(def.long_name, "channel");
            assert_eq!(def.node_type, NodeType::Node);
            assert_eq!(def.raw, body);
        },
        _ => panic!("wrong response"),
    }
}

#[test]
fn zero_length_definition_is_invalid_data() {
    // A zero 16-bit length pulls a 32-bit count and leaves an empty
    // body, which no definition layout accepts.
    let input = vec![0xdf, 0xde, 0x00, 0x00, 0x00, 0x00, 0x00, 0x09];
    let mut st = SessionState::new();
    assert!(matches!(st.read_message(&input, 0), Err(Error::InvalidData)));
}

#[test]
fn node_data_projections() {
    let i = WingNodeData::with_i32(7);
    assert!(i.has_int());
    assert!(!i.has_float());
    assert!(!i.has_string());
    assert_eq!(i.get_int(), Some(7));
    assert_eq!(i.get_float_bits(), None);
    assert!(i.get_string().is_none());

    let s = WingNodeData::with_i16(-3);
    assert!(s.has_int());
    assert_eq!(s.get_int(), Some(-3));

    let f = WingNodeData::with_float_bits(1.0f32.to_bits());
    assert!(f.has_float());
    assert_eq!(f.get_float_bits().map(f32::from_bits), Some(1.0));
    assert_eq!(f.get_int(), None);

    let t = WingNodeData::with_string(String::from("on"));
    assert!(t.has_string());
    assert_eq!(t.get_string().map(|s| s.as_str()), Some("on"));
    assert_eq!(t.get_int(), None);
}

#[test]
fn unit_codes_map() {
    assert_eq!(node_unit_of_code(0), NodeUnit::NoUnit);
    assert_eq!(node_unit_of_code(1), NodeUnit::Decibels);
    assert_eq!(node_unit_of_code(2), NodeUnit::Percent);
    assert_eq!(node_unit_of_code(3), NodeUnit::Hertz);
    assert_eq!(node_unit_of_code(4), NodeUnit::Milliseconds);
    assert_eq!(node_unit_of_code(5), NodeUnit::Degrees);
    assert_eq!(node_unit_of_code(77), NodeUnit::Other);
}
