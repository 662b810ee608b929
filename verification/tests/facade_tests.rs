//! The typed operations against replayed containers, and the code-name
//! tables.

use ptp::engine::Engine;
use ptp::error::Error;
use ptp::ops;
use ptp::{StandardCommandCode, StandardResponseCode};

fn container(kind: u16, code: u16, tid: u32, payload: &[u8]) -> Vec<u8> {
    let mut v = ((payload.len() + 12) as u32).to_le_bytes().to_vec();
    v.extend_from_slice(&kind.to_le_bytes());
    v.extend_from_slice(&code.to_le_bytes());
    v.extend_from_slice(&tid.to_le_bytes());
    v.extend_from_slice(payload);
    v
}

fn response_ok(tid: u32) -> Vec<u8> {
    container(3, 0x2001, tid, &[])
}

fn push_u16(v: &mut Vec<u8>, x: u16) {
    v.extend_from_slice(&x.to_le_bytes());
}

fn push_u32(v: &mut Vec<u8>, x: u32) {
    v.extend_from_slice(&x.to_le_bytes());
}

fn push_ptp_str(v: &mut Vec<u8>, s: &str) {
    let units: Vec<u16> = s.encode_utf16().collect();
    if units.is_empty() {
        v.push(0);
    } else {
        v.push((units.len() + 1) as u8);
        for u in units {
            push_u16(v, u);
        }
        push_u16(v, 0);
    }
}

fn device_info_payload() -> Vec<u8> {
    let mut v = Vec::new();
    push_u16(&mut v, 100);
    push_u32(&mut v, 0);
    push_u16(&mut v, 0);
    push_ptp_str(&mut v, "");
    push_u16(&mut v, 0);
    push_u32(&mut v, 1);
    push_u16(&mut v, 0x1001);
    push_u32(&mut v, 0);
    push_u32(&mut v, 0);
    push_u32(&mut v, 0);
    push_u32(&mut v, 0);
    push_ptp_str(&mut v, "Maker");
    push_ptp_str(&mut v, "Cam");
    push_ptp_str(&mut v, "2.1");
    push_ptp_str(&mut v, "0001");
    v
}

#[test]
fn get_device_info_parses_the_data_phase() {
    let mut engine = Engine::new();
    let payload = device_info_payload();
    let inbound = vec![container(2, 0x1001, 0, &payload), response_ok(0)];
    let d = engine.get_device_info(&inbound).unwrap();
    assert_eq!(d.Version, 100);
    assert_eq!(d.OperationsSupported, vec![0x1001]);
    assert_eq!(d.Manufacturer, "Maker");
    assert_eq!(d.Model, "Cam");
    assert_eq!(engine.current_tid, 1);
}

#[test]
fn open_session_then_next_tid() {
    let mut engine = Engine::new();
    engine.open_session(&vec![response_ok(0)]).unwrap();
    assert_eq!(engine.current_tid, 1);
    engine.close_session(&vec![response_ok(1)]).unwrap();
    assert_eq!(engine.current_tid, 2);
}

#[test]
fn get_storageids_parses_the_id_array() {
    let mut engine = Engine::new();
    let mut payload = Vec::new();
    push_u32(&mut payload, 2);
    push_u32(&mut payload, 0x00010001);
    push_u32(&mut payload, 0x00020001);
    let inbound = vec![container(2, 0x1004, 0, &payload), response_ok(0)];
    let ids = engine.get_storageids(&inbound).unwrap();
    assert_eq!(ids, vec![0x00010001, 0x00020001]);
}

#[test]
fn get_storageids_rejects_trailing_bytes() {
    let mut engine = Engine::new();
    let mut payload = Vec::new();
    push_u32(&mut payload, 0);
    payload.push(0xEE);
    let inbound = vec![container(2, 0x1004, 0, &payload), response_ok(0)];
    match engine.get_storageids(&inbound) {
        Err(Error::Malformed(m)) => assert_eq!(m, "Response 5 bytes, expected 4 bytes"),
        _ => panic!("unexpected result"),
    }
}

#[test]
fn get_numobjects_parses_the_count() {
    let mut engine = Engine::new();
    let mut payload = Vec::new();
    push_u32(&mut payload, 17);
    let inbound = vec![container(2, 0x1006, 0, &payload), response_ok(0)];
    let n = engine.get_numobjects(0x00010001, 0xFFFFFFFF, None, &inbound).unwrap();
    assert_eq!(n, 17);
}

#[test]
fn get_object_returns_raw_payload() {
    let mut engine = Engine::new();
    let body = vec![0xFF, 0xD8, 0xFF, 0xE0];
    let inbound = vec![container(2, 0x1009, 0, &body), response_ok(0)];
    let data = engine.get_object(42, &inbound).unwrap();
    assert_eq!(data, body);
}

#[test]
fn facade_propagates_error_responses() {
    let mut engine = Engine::new();
    let inbound = vec![container(3, 0x2003, 0, &[])];
    match engine.get_storageids(&inbound) {
        Err(Error::Response(c)) => assert_eq!(c, 0x2003),
        _ => panic!("unexpected result"),
    }
}

#[test]
fn request_builders_carry_the_documented_parameters() {
    assert_eq!(ops::get_device_info_request().params, vec![0, 0, 0]);
    assert_eq!(ops::open_session_request().params, vec![1, 0, 0]);
    assert_eq!(ops::close_session_request().params, Vec::<u32>::new());
    let r = ops::get_objecthandles_request(5, 0xFFFFFFFF, None);
    assert_eq!(r.code, 0x1007);
    assert_eq!(r.params, vec![5, 0, 0xFFFFFFFF]);
    let f = ops::get_numobjects_request(5, 0, Some(0x3801));
    assert_eq!(f.params, vec![5, 0x3801, 0]);
    let p = ops::get_partialobject_request(9, 100, 4096);
    assert_eq!(p.code, 0x101B);
    assert_eq!(p.params, vec![9, 100, 4096]);
}

#[test]
fn response_code_names() {
    assert_eq!(StandardResponseCode::name(0x2001), Some("Ok"));
    assert_eq!(StandardResponseCode::name(0x2009), Some("InvalidObjectHandle"));
    assert_eq!(StandardResponseCode::name(0x2019), Some("DeviceBusy"));
    assert_eq!(StandardResponseCode::name(0x2020), Some("SpecificationOfDestinationUnsupported"));
    assert_eq!(StandardResponseCode::name(0x2021), None);
    assert_eq!(StandardResponseCode::name(0xA001), None);
    assert_eq!(StandardResponseCode::name(StandardResponseCode::SESSION_ALREADY_OPEN),
        Some("SessionAlreadyOpen"));
}

#[test]
fn command_code_names() {
    assert_eq!(StandardCommandCode::name(0x1001), Some("GetDeviceInfo"));
    assert_eq!(StandardCommandCode::name(0x101C), Some("InitiateOpenCapture"));
    assert_eq!(StandardCommandCode::name(0x101D), None);
    assert_eq!(StandardCommandCode::name(StandardCommandCode::GET_PARTIAL_OBJECT),
        Some("GetPartialObject"));
}

#[test]
fn malformed_and_usb_messages() {
    let e = Error::Malformed("boom".to_owned());
    assert_eq!(e.message(), "boom");
    let u = Error::Usb(rusb::Error::Timeout);
    assert_eq!(u.message(), "USB error");
    let from: Error = rusb::Error::Busy.into();
    match from {
        Error::Usb(inner) => assert_eq!(inner, rusb::Error::Busy),
        _ => panic!("unexpected variant"),
    }
}
