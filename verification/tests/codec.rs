use libwing::bytes::{i16_from_be, i32_from_be, u16_from_be, u32_from_be};
use libwing::wire::{
    encode_handshake, encode_request_node_data, encode_request_node_definition, encode_set_float_bits,
    encode_set_int, encode_set_string, encode_set_string_bytes,
};

#[test]
fn connect_handshake_first_bytes() {
    assert_eq!(encode_handshake(), vec![0xdf, 0xd1]);
}

#[test]
fn set_float_escapes_id_byte() {
    // The id 0x00DF0102 holds the escape byte, which gains a 0xDE on the
    // wire; 1.0 has the IEEE-754 bits 0x3F800000.
    let bytes = encode_set_float_bits(0x00df0102, 1.0f32.to_bits());
    assert_eq!(bytes, vec![0xd7, 0x00, 0xdf, 0xde, 0x01, 0x02, 0xd5, 0x3f, 0x80, 0x00, 0x00]);
}

#[test]
fn set_int_inline_form() {
    assert_eq!(encode_set_int(5, 7), vec![0xd7, 0x00, 0x00, 0x00, 0x05, 0x07]);
    assert_eq!(encode_set_int(5, 0x3f), vec![0xd7, 0x00, 0x00, 0x00, 0x05, 0x3f]);
}

#[test]
fn set_int_short_form() {
    assert_eq!(encode_set_int(5, 0x40), vec![0xd7, 0x00, 0x00, 0x00, 0x05, 0xd3, 0x00, 0x40]);
    assert_eq!(encode_set_int(5, -1), vec![0xd7, 0x00, 0x00, 0x00, 0x05, 0xd3, 0xff, 0xff]);
    assert_eq!(
        encode_set_int(5, -32768),
        vec![0xd7, 0x00, 0x00, 0x00, 0x05, 0xd3, 0x80, 0x00]
    );
}

#[test]
fn set_int_wide_form() {
    assert_eq!(
        encode_set_int(5, 100000),
        vec![0xd7, 0x00, 0x00, 0x00, 0x05, 0xd4, 0x00, 0x01, 0x86, 0xa0]
    );
    assert_eq!(
        encode_set_int(5, -40000),
        vec![0xd7, 0x00, 0x00, 0x00, 0x05, 0xd4, 0xff, 0xff, 0x63, 0xc0]
    );
}

#[test]
fn set_string_empty() {
    let s: Vec<u8> = Vec::new();
    assert_eq!(encode_set_string_bytes(9, &s), vec![0xd7, 0x00, 0x00, 0x00, 0x09, 0xd0]);
}

#[test]
fn set_string_short_form() {
    let s = vec![0x48, 0x49];
    assert_eq!(
        encode_set_string_bytes(9, &s),
        vec![0xd7, 0x00, 0x00, 0x00, 0x09, 0x81, 0x48, 0x49]
    );
}

#[test]
fn set_string_long_form() {
    let s = vec![0x61; 100];
    let bytes = encode_set_string_bytes(9, &s);
    assert_eq!(&bytes[..7], &[0xd7, 0x00, 0x00, 0x00, 0x09, 0xd1, 99]);
    assert_eq!(&bytes[7..], &s[..]);
}

#[test]
fn set_string_largest_form() {
    // 256 bytes is the largest string with a wire form.
    let s = vec![0x7a; 256];
    let bytes = encode_set_string_bytes(9, &s);
    assert_eq!(&bytes[..7], &[0xd7, 0x00, 0x00, 0x00, 0x09, 0xd1, 255]);
    assert_eq!(bytes.len(), 7 + 256);
}

#[test]
fn set_string_from_str() {
    let bytes = encode_set_string(9, "HI").unwrap();
    assert_eq!(bytes, vec![0xd7, 0x00, 0x00, 0x00, 0x09, 0x81, 0x48, 0x49]);
    let long = "x".repeat(300);
    assert!(encode_set_string(9, &long).is_none());
}

#[test]
fn request_frames_for_root() {
    assert_eq!(encode_request_node_data(0), vec![0xda, 0xdc]);
    assert_eq!(encode_request_node_definition(0), vec![0xda, 0xdd]);
}

#[test]
fn request_frames_for_node() {
    assert_eq!(
        encode_request_node_data(0x00df0102),
        vec![0xd7, 0x00, 0xdf, 0xde, 0x01, 0x02, 0xdc]
    );
    assert_eq!(
        encode_request_node_definition(7),
        vec![0xd7, 0x00, 0x00, 0x00, 0x07, 0xdd]
    );
}

#[test]
fn big_endian_assembly() {
    assert_eq!(u16_from_be(0x01, 0x2a), 0x012a);
    assert_eq!(i16_from_be(0xff, 0x00), -0x0100);
    assert_eq!(u32_from_be(0x3f, 0x80, 0x00, 0x00), 0x3f800000);
    assert_eq!(i32_from_be(0xff, 0xff, 0xff, 0xff), -1);
    assert_eq!(i32_from_be(0x7f, 0xff, 0xff, 0xff), i32::MAX);
    assert_eq!(i32_from_be(0x80, 0x00, 0x00, 0x00), i32::MIN);
}
