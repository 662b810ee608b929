//! Container header framing: serialization, parsing and their round
//! trip.

use ptp::container::{ContainerInfo, ContainerType};
use ptp::error::Error;

#[test]
fn header_round_trip() {
    let h = ContainerInfo {
        payload_len: 5,
        kind: ContainerType::Command,
        code: 0x1001,
        tid: 7,
    };
    let bytes = h.serialize();
    assert_eq!(bytes.len(), 12);
    // the first four bytes decode to 12 + payload length
    assert_eq!(u32::from_le_bytes([bytes[0], bytes[1], bytes[2], bytes[3]]), 17);
    let back = ContainerInfo::parse(bytes.as_slice()).unwrap();
    assert_eq!(back, h);
}

#[test]
fn header_round_trip_every_kind() {
    for kind in [
        ContainerType::Command,
        ContainerType::Data,
        ContainerType::Response,
        ContainerType::Event,
    ] {
        let h = ContainerInfo { payload_len: 0, kind, code: 0x2001, tid: 0xFFFFFFFF };
        let back = ContainerInfo::parse(h.serialize().as_slice()).unwrap();
        assert_eq!(back, h);
    }
}

#[test]
fn parse_exact_bytes() {
    // len 12, Command, code 0x1001, tid 0
    let bytes = vec![0x0C, 0, 0, 0, 0x01, 0, 0x01, 0x10, 0, 0, 0, 0];
    let h = ContainerInfo::parse(bytes.as_slice()).unwrap();
    assert_eq!(h.payload_len, 0);
    assert_eq!(h.kind, ContainerType::Command);
    assert_eq!(h.code, 0x1001);
    assert_eq!(h.tid, 0);
}

#[test]
fn parse_rejects_unknown_kind() {
    let bytes = vec![0x0C, 0, 0, 0, 0x1A, 0, 0x01, 0x10, 0, 0, 0, 0];
    match ContainerInfo::parse(bytes.as_slice()) {
        Err(Error::Malformed(m)) => assert_eq!(m, "Invalid message type 1a."),
        _ => panic!("unexpected result"),
    }
}

#[test]
fn parse_rejects_short_length_field() {
    let bytes = vec![0x0B, 0, 0, 0, 0x01, 0, 0x01, 0x10, 0, 0, 0, 0];
    match ContainerInfo::parse(bytes.as_slice()) {
        Err(Error::Malformed(m)) => assert_eq!(m, "Invalid message length 11."),
        _ => panic!("unexpected result"),
    }
}

#[test]
fn parse_rejects_short_buffer() {
    let bytes = vec![0x0C, 0, 0, 0, 0x01, 0];
    match ContainerInfo::parse(bytes.as_slice()) {
        Err(Error::Malformed(m)) => assert_eq!(m, "Unexpected end of message"),
        _ => panic!("unexpected result"),
    }
}

#[test]
fn belongs_to_is_id_equality() {
    let h = ContainerInfo { payload_len: 0, kind: ContainerType::Response, code: 0x2001, tid: 3 };
    assert!(h.belongs_to(3));
    assert!(!h.belongs_to(4));
}

#[test]
fn from_u16_kinds() {
    assert_eq!(ContainerType::from_u16(1), Some(ContainerType::Command));
    assert_eq!(ContainerType::from_u16(2), Some(ContainerType::Data));
    assert_eq!(ContainerType::from_u16(3), Some(ContainerType::Response));
    assert_eq!(ContainerType::from_u16(4), Some(ContainerType::Event));
    assert_eq!(ContainerType::from_u16(0), None);
    assert_eq!(ContainerType::from_u16(5), None);
}
