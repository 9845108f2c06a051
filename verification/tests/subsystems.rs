use libwing::discovery::{encode_discovery_probe, parse_discovery_reply};
use libwing::keepalive::{KeepaliveTimer, DATA_KEEP_ALIVE_MS, METERS_KEEP_ALIVE_MS};
use libwing::meters::{encode_meter_keepalive, encode_meter_request, parse_meter_datagram, Meter};

#[test]
fn meter_datagram_decodes() {
    let buf = vec![0x01, 0x2a, 0x00, 0x00, 0x00, 0x80, 0xff, 0x00];
    let (id, samples) = parse_meter_datagram(&buf);
    assert_eq!(id, 0x012a);
    assert_eq!(samples, vec![0x0080, -0x0100]);
}

#[test]
fn meter_datagram_ignores_odd_tail() {
    let buf = vec![0x00, 0x01, 0xaa, 0xbb, 0x00, 0x02, 0x7f];
    let (id, samples) = parse_meter_datagram(&buf);
    assert_eq!(id, 1);
    assert_eq!(samples, vec![2]);
}

#[test]
fn meter_request_frame_layout() {
    let meters = vec![Meter::Channel(0), Meter::Monitor, Meter::Aux2(3)];
    let bytes = encode_meter_request(0xabcd, 1, &meters);
    assert_eq!(
        bytes,
        vec![
            0xdf, 0xd3, 0xd3, 0xab, 0xcd, 0xd4, 0x00, 0x01, 0xab, 0xcd, 0xdc, 0xa0, 0x00, 0xa9,
            0xac, 0x03, 0xde, 0xdf, 0xd1,
        ]
    );
}

#[test]
fn meter_selector_tags() {
    let meters = vec![
        Meter::Channel(1),
        Meter::Aux(2),
        Meter::Bus(3),
        Meter::Main(4),
        Meter::Matrix(5),
        Meter::Dca(6),
        Meter::Fx(7),
        Meter::Source(8),
        Meter::Output(9),
        Meter::Monitor,
        Meter::Rta,
        Meter::Channel2(10),
        Meter::Aux2(11),
        Meter::Bus2(12),
        Meter::Main2(13),
        Meter::Matrix2(14),
    ];
    let bytes = encode_meter_request(0, 0, &meters);
    let body = &bytes[11..bytes.len() - 3];
    assert_eq!(
        body,
        &[
            0xa0, 1, 0xa1, 2, 0xa2, 3, 0xa3, 4, 0xa4, 5, 0xa5, 6, 0xa6, 7, 0xa7, 8, 0xa8, 9,
            0xa9, 0xaa, 0xab, 10, 0xac, 11, 0xad, 12, 0xae, 13, 0xaf, 14,
        ]
    );
}

#[test]
fn meter_keepalive_counts_down() {
    let bytes = encode_meter_keepalive(2, 0x1234);
    assert_eq!(
        bytes,
        vec![
            0xdf, 0xd3, 0xd4, 0x00, 0x02, 0x12, 0x34, 0xdf, 0xd1, 0xdf, 0xd3, 0xd4, 0x00, 0x01,
            0x12, 0x34, 0xdf, 0xd1,
        ]
    );
    assert_eq!(encode_meter_keepalive(0, 0x1234), Vec::<u8>::new());
}

#[test]
fn keepalive_fires_exactly_at_deadline() {
    let mut t = KeepaliveTimer::new(1000, DATA_KEEP_ALIVE_MS);
    assert!(!t.due(7999));
    assert!(!t.check(7999));
    assert!(t.due(8000));
    assert!(t.check(8000));
    // Firing re-arms strictly into the future.
    assert!(!t.due(8000));
    assert_eq!(t.remaining(8000), DATA_KEEP_ALIVE_MS);
    assert_eq!(t.remaining(16000), 0);
}

#[test]
fn meters_keepalive_interval() {
    let mut t = KeepaliveTimer::new(0, METERS_KEEP_ALIVE_MS);
    assert!(!t.check(2999));
    assert!(t.check(3000));
    assert!(!t.check(5999));
    assert!(t.check(6000));
}

#[test]
fn discovery_probe_text() {
    assert_eq!(encode_discovery_probe(), b"WING?".to_vec());
}

#[test]
fn discovery_reply_parses() {
    let payload = b"WING,192.168.1.20,Desk,WING,SN123,1.0.2".to_vec();
    let d = parse_discovery_reply(&payload).unwrap();
    assert_eq!(d.ip, "192.168.1.20");
    assert_eq!(d.name, "Desk");
    assert_eq!(d.model, "WING");
    assert_eq!(d.serial, "SN123");
    assert_eq!(d.firmware, "1.0.2");
}

#[test]
fn discovery_reply_with_extra_fields() {
    let payload = b"WING,10.0.0.9,A,B,C,D,extra,more".to_vec();
    let d = parse_discovery_reply(&payload).unwrap();
    assert_eq!(d.ip, "10.0.0.9");
    assert_eq!(d.firmware, "D");
}

#[test]
fn discovery_reply_rejects_foreign() {
    assert!(parse_discovery_reply(&b"PING,10.0.0.9,A,B,C,D".to_vec()).is_none());
    assert!(parse_discovery_reply(&b"WING,10.0.0.9,A,B,C".to_vec()).is_none());
    assert!(parse_discovery_reply(&b"".to_vec()).is_none());
}
