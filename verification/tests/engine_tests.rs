//! The transaction engine against a replayed device: exact host bytes,
//! data delivery, error responses, id correlation and id monotonicity.

use ptp::engine::{Engine, Responses, Step, phase_chunks};
use ptp::container::ContainerType;
use ptp::error::Error;
use ptp::ops;

fn container(kind: u16, code: u16, tid: u32, payload: &[u8]) -> Vec<u8> {
    let mut v = ((payload.len() + 12) as u32).to_le_bytes().to_vec();
    v.extend_from_slice(&kind.to_le_bytes());
    v.extend_from_slice(&code.to_le_bytes());
    v.extend_from_slice(&tid.to_le_bytes());
    v.extend_from_slice(payload);
    v
}

fn response_ok(tid: u32) -> Vec<u8> {
    container(3, 0x2001, tid, &[])
}

#[test]
fn command_phase_exact_bytes() {
    // Command, code 0x1001, tid 0, no parameters
    let mut engine = Engine::new();
    let (tid, out) = engine.begin(0x1001, &vec![], None);
    assert_eq!(tid, 0);
    assert_eq!(out.len(), 1);
    assert_eq!(out[0], vec![0x0C, 0, 0, 0, 0x01, 0, 0x01, 0x10, 0, 0, 0, 0]);
}

#[test]
fn open_session_exact_bytes() {
    let mut engine = Engine::new();
    let req = ops::open_session_request();
    assert_eq!(req.code, 0x1002);
    assert_eq!(req.params, vec![1, 0, 0]);
    let (tid, out) = engine.begin(req.code, &req.params, None);
    assert_eq!(tid, 0);
    assert_eq!(out.len(), 1);
    let mut expected = vec![0x18, 0, 0, 0, 0x01, 0, 0x02, 0x10, 0, 0, 0, 0];
    expected.extend_from_slice(&[0x01, 0, 0, 0, 0, 0, 0, 0, 0, 0, 0, 0]);
    assert_eq!(out[0], expected);
    // the response with tid 0 completes the session open; the next
    // transaction uses tid 1
    let r = ptp::engine::run_responses(tid, &vec![response_ok(0)]);
    assert!(r.is_ok());
    let (tid2, _) = engine.begin(0x1001, &vec![], None);
    assert_eq!(tid2, 1);
    assert_eq!(engine.current_tid, 2);
}

#[test]
fn data_phase_is_built_when_outbound_data_is_present() {
    let mut engine = Engine::new();
    let data = vec![0xAA, 0xBB];
    let (tid, out) = engine.begin(0x1016, &vec![0x5001], Some(&data));
    assert_eq!(out.len(), 2);
    let mut expected = vec![0x0E, 0, 0, 0, 0x02, 0, 0x16, 0x10, 0, 0, 0, 0];
    expected.extend_from_slice(&[0xAA, 0xBB]);
    assert_eq!(out[1], expected);
    assert_eq!(tid, 0);
}

#[test]
fn command_returns_replayed_data_payload() {
    let mut engine = Engine::new();
    let payload = vec![1, 2, 3, 4, 5];
    let inbound = vec![container(2, 0x1009, 0, &payload), response_ok(0)];
    let r = engine.command(0x1009, &vec![7], None, &inbound).unwrap();
    assert_eq!(r, payload);
}

#[test]
fn command_without_data_phase_returns_empty_payload() {
    let mut engine = Engine::new();
    let r = engine.command(0x1003, &vec![], None, &vec![response_ok(0)]).unwrap();
    assert_eq!(r, Vec::<u8>::new());
}

#[test]
fn command_returns_error_response_code() {
    let mut engine = Engine::new();
    let inbound = vec![container(3, 0x2009, 0, &[])];
    match engine.command(0x1009, &vec![7], None, &inbound) {
        Err(Error::Response(c)) => assert_eq!(c, 0x2009),
        _ => panic!("unexpected result"),
    }
    // the failed transaction still consumed its id
    assert_eq!(engine.current_tid, 1);
}

#[test]
fn error_response_formats_with_name() {
    let e = Error::Response(0x2009);
    assert_eq!(e.message(), "InvalidObjectHandle (0x2009)");
    let unknown = Error::Response(0xA001);
    assert_eq!(unknown.message(), "Unknown (0xa001)");
}

#[test]
fn tid_mismatch_is_malformed() {
    let mut engine = Engine { current_tid: 3 };
    let inbound = vec![response_ok(7)];
    match engine.command(0x1004, &vec![], None, &inbound) {
        Err(Error::Malformed(m)) => assert_eq!(m, "mismatched txnid 7, expecting 3"),
        _ => panic!("unexpected result"),
    }
}

#[test]
fn spurious_event_containers_are_ignored() {
    let mut engine = Engine::new();
    let payload = vec![9, 9];
    let inbound = vec![
        container(4, 0x4002, 0, &[1, 2, 3]),
        container(2, 0x1009, 0, &payload),
        response_ok(0),
    ];
    let r = engine.command(0x1009, &vec![1], None, &inbound).unwrap();
    assert_eq!(r, payload);
}

#[test]
fn later_data_phase_replaces_earlier() {
    let mut engine = Engine::new();
    let inbound = vec![
        container(2, 0x1009, 0, &[1]),
        container(2, 0x1009, 0, &[2, 2]),
        response_ok(0),
    ];
    let r = engine.command(0x1009, &vec![1], None, &inbound).unwrap();
    assert_eq!(r, vec![2, 2]);
}

#[test]
fn missing_response_is_malformed() {
    let mut engine = Engine::new();
    match engine.command(0x1004, &vec![], None, &vec![]) {
        Err(Error::Malformed(m)) => assert_eq!(m, "no response received"),
        _ => panic!("unexpected result"),
    }
}

#[test]
fn tid_monotonicity_over_many_commands() {
    let mut engine = Engine::new();
    let mut seen: Vec<u32> = Vec::new();
    for n in 0..5u32 {
        let (tid, out) = engine.begin(0x1004, &vec![], None);
        assert_eq!(tid, n);
        // the transmitted Command container carries the same id
        assert_eq!(&out[0][8..12], &tid.to_le_bytes());
        assert!(!seen.contains(&tid));
        seen.push(tid);
        let r = ptp::engine::run_responses(tid, &vec![response_ok(tid)]);
        assert!(r.is_ok());
    }
    assert_eq!(engine.current_tid, 5);
}

#[test]
fn feeder_follows_the_phases() {
    let mut resp = Responses::new(0);
    match resp.feed(&container(2, 0x1009, 0, &[5, 6])) {
        Step::Continue => {},
        _ => panic!("unexpected step"),
    }
    match resp.feed(&response_ok(0)) {
        Step::Done(v) => assert_eq!(v, vec![5, 6]),
        _ => panic!("unexpected step"),
    }
}

#[test]
fn feeder_rejects_wrong_tid() {
    let mut resp = Responses::new(2);
    match resp.feed(&response_ok(9)) {
        Step::Failed(Error::Malformed(m)) => {
            assert_eq!(m, "mismatched txnid 9, expecting 2")
        },
        _ => panic!("unexpected step"),
    }
}

#[test]
fn chunking_splits_large_payloads() {
    let payload = vec![0x5Au8; 3 * 1024 * 1024];
    let chunks = phase_chunks(ContainerType::Data, 0x100D, 1, &payload);
    // header + payload split at 1 MiB boundaries
    assert_eq!(chunks.len(), 4);
    assert_eq!(chunks[0].len(), 1024 * 1024);
    assert_eq!(chunks[1].len(), 1024 * 1024);
    assert_eq!(chunks[2].len(), 1024 * 1024);
    assert_eq!(chunks[3].len(), 12);
    let total: Vec<u8> = chunks.concat();
    assert_eq!(total.len(), 12 + payload.len());
    assert_eq!(&total[0..4], &((payload.len() + 12) as u32).to_le_bytes());
    assert_eq!(&total[12..], &payload[..]);
}

#[test]
fn chunking_small_payload_is_one_chunk() {
    let payload = vec![1u8, 2, 3];
    let chunks = phase_chunks(ContainerType::Command, 0x1001, 0, &payload);
    assert_eq!(chunks.len(), 1);
    assert_eq!(chunks[0].len(), 15);
}
