//! Round trips and exact encodings of the datatype codec and the wire
//! reader.

use ptp::datatype::DataType;
use ptp::error::Error;
use ptp::reader::Reader;

fn roundtrip(tag: u16, v: DataType) {
    let bytes = v.encode();
    let mut cur = Reader::new(bytes.as_slice());
    let back = DataType::read_type(tag, &mut cur).unwrap();
    assert_eq!(back, v);
    cur.expect_end().unwrap();
}

#[test]
fn scalar_round_trips() {
    roundtrip(0x0001, DataType::INT8(-5));
    roundtrip(0x0002, DataType::UINT8(200));
    roundtrip(0x0003, DataType::INT16(-30000));
    roundtrip(0x0004, DataType::UINT16(0x1234));
    roundtrip(0x0005, DataType::INT32(-2_000_000_000));
    roundtrip(0x0006, DataType::UINT32(0xDEADBEEF));
    roundtrip(0x0007, DataType::INT64(i64::MIN));
    roundtrip(0x0008, DataType::UINT64(u64::MAX));
    roundtrip(0x0009, DataType::INT128(i128::MIN + 7));
    roundtrip(0x000A, DataType::UINT128(u128::MAX - 9));
}

#[test]
fn array_round_trips() {
    roundtrip(0x4001, DataType::AINT8(vec![-1, 0, 1]));
    roundtrip(0x4002, DataType::AUINT8(vec![1, 2, 255]));
    roundtrip(0x4003, DataType::AINT16(vec![-300, 300]));
    roundtrip(0x4004, DataType::AUINT16(vec![10, 20, 30]));
    roundtrip(0x4005, DataType::AINT32(vec![-70000]));
    roundtrip(0x4006, DataType::AUINT32(vec![0, u32::MAX]));
    roundtrip(0x4007, DataType::AINT64(vec![i64::MAX, -1]));
    roundtrip(0x4008, DataType::AUINT64(vec![42]));
    roundtrip(0x4009, DataType::AINT128(vec![-1, 1]));
    roundtrip(0x400A, DataType::AUINT128(vec![7, 8, 9]));
    roundtrip(0x4004, DataType::AUINT16(vec![]));
}

#[test]
fn string_round_trips() {
    roundtrip(0xFFFF, DataType::STR("ABC".to_owned()));
    roundtrip(0xFFFF, DataType::STR("".to_owned()));
    roundtrip(0xFFFF, DataType::STR("caf\u{e9} \u{1F600}".to_owned()));
}

#[test]
fn scalar_expected_bytes() {
    assert_eq!(DataType::UINT8(0xAB).encode(), vec![0xAB]);
    assert_eq!(DataType::UINT16(0x1234).encode(), vec![0x34, 0x12]);
    assert_eq!(DataType::UINT32(0x01020304).encode(), vec![0x04, 0x03, 0x02, 0x01]);
    assert_eq!(DataType::INT8(-1).encode(), vec![0xFF]);
    assert_eq!(DataType::INT16(-2).encode(), vec![0xFE, 0xFF]);
    assert_eq!(
        DataType::UINT64(0x0102030405060708).encode(),
        vec![0x08, 0x07, 0x06, 0x05, 0x04, 0x03, 0x02, 0x01]
    );
    assert_eq!(DataType::UNDEF.encode(), Vec::<u8>::new());
}

#[test]
fn array_expected_bytes() {
    assert_eq!(
        DataType::AUINT16(vec![1, 2]).encode(),
        vec![0x02, 0x00, 0x00, 0x00, 0x01, 0x00, 0x02, 0x00]
    );
    assert_eq!(DataType::AUINT32(vec![]).encode(), vec![0x00, 0x00, 0x00, 0x00]);
}

#[test]
fn string_expected_bytes() {
    // "ABC": count byte 4 (three units plus the terminator), UTF-16LE
    // units, then the zero terminator unit.
    assert_eq!(
        DataType::STR("ABC".to_owned()).encode(),
        vec![0x04, 0x41, 0x00, 0x42, 0x00, 0x43, 0x00, 0x00, 0x00]
    );
    // The empty string is the single byte 0.
    assert_eq!(DataType::STR("".to_owned()).encode(), vec![0x00]);
}

#[test]
fn unknown_tag_reads_nothing() {
    let bytes = vec![0x01, 0x02, 0x03];
    let mut cur = Reader::new(bytes.as_slice());
    let v = DataType::read_type(0x7777, &mut cur).unwrap();
    assert_eq!(v, DataType::UNDEF);
    // nothing was consumed
    assert_eq!(cur.read_ptp_u8().unwrap(), 0x01);
}

#[test]
fn u32_vec_decode() {
    let bytes = vec![0x02, 0x00, 0x00, 0x00, 0x0A, 0x00, 0x00, 0x00, 0x14, 0x00, 0x00, 0x00];
    let mut cur = Reader::new(bytes.as_slice());
    let v = cur.read_ptp_u32_vec().unwrap();
    assert_eq!(v, vec![10, 20]);
    assert!(cur.expect_end().is_ok());
}

#[test]
fn expect_end_reports_both_lengths() {
    let bytes = vec![0x00, 0x00, 0x00, 0x00, 0xFF];
    let mut cur = Reader::new(bytes.as_slice());
    let v = cur.read_ptp_u32_vec().unwrap();
    assert_eq!(v, Vec::<u32>::new());
    match cur.expect_end() {
        Err(Error::Malformed(m)) => assert_eq!(m, "Response 5 bytes, expected 4 bytes"),
        _ => panic!("unexpected result"),
    }
}

#[test]
fn truncated_read_is_malformed() {
    let bytes = vec![0x01, 0x02];
    let mut cur = Reader::new(bytes.as_slice());
    match cur.read_ptp_u32() {
        Err(Error::Malformed(m)) => assert_eq!(m, "Unexpected end of message"),
        _ => panic!("unexpected result"),
    }
}

#[test]
fn invalid_utf16_is_malformed() {
    // count 2: one unit, a lone high surrogate, then the terminator
    let bytes = vec![0x02, 0x00, 0xD8, 0x00, 0x00];
    let mut cur = Reader::new(bytes.as_slice());
    match cur.read_ptp_str() {
        Err(Error::Malformed(m)) => assert_eq!(m, "Invalid UTF16 data"),
        _ => panic!("unexpected result"),
    }
}

#[test]
fn string_read_ignores_terminator_value() {
    // count 2: the unit 'Z', then a nonzero terminator, which is not
    // validated
    let bytes = vec![0x02, 0x5A, 0x00, 0x99, 0x99];
    let mut cur = Reader::new(bytes.as_slice());
    assert_eq!(cur.read_ptp_str().unwrap(), "Z");
    assert!(cur.expect_end().is_ok());
}

#[test]
fn from_conversions() {
    assert_eq!(DataType::from(7u8), DataType::UINT8(7));
    assert_eq!(DataType::from(-7i16), DataType::INT16(-7));
    assert_eq!(DataType::from(7u32), DataType::UINT32(7));
    assert_eq!(DataType::from("hi"), DataType::STR("hi".to_owned()));
    assert_eq!(DataType::from("hi".to_owned()), DataType::STR("hi".to_owned()));
}
