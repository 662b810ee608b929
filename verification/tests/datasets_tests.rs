//! The standard dataset decoders on crafted buffers, including the
//! one-byte-short and one-byte-long rejections.

use ptp::datasets::{DeviceInfo, ObjectInfo, StorageInfo};
use ptp::datatype::{DataType, FormData};
use ptp::prop_info::{PropInfo, PropInfoSony};
use ptp::reader::Reader;

fn push_u16(v: &mut Vec<u8>, x: u16) {
    v.extend_from_slice(&x.to_le_bytes());
}

fn push_u32(v: &mut Vec<u8>, x: u32) {
    v.extend_from_slice(&x.to_le_bytes());
}

fn push_u64(v: &mut Vec<u8>, x: u64) {
    v.extend_from_slice(&x.to_le_bytes());
}

fn push_ptp_str(v: &mut Vec<u8>, s: &str) {
    let units: Vec<u16> = s.encode_utf16().collect();
    if units.is_empty() {
        v.push(0);
    } else {
        v.push((units.len() + 1) as u8);
        for u in units {
            push_u16(v, u);
        }
        push_u16(v, 0);
    }
}

fn push_u16_array(v: &mut Vec<u8>, items: &[u16]) {
    push_u32(v, items.len() as u32);
    for x in items {
        push_u16(v, *x);
    }
}

fn device_info_bytes() -> Vec<u8> {
    let mut v = Vec::new();
    push_u16(&mut v, 100);  // Version
    push_u32(&mut v, 6);  // VendorExID
    push_u16(&mut v, 1);  // VendorExVersion
    push_ptp_str(&mut v, "");  // VendorExtensionDesc
    push_u16(&mut v, 0);  // FunctionalMode
    push_u16_array(&mut v, &[0x1001, 0x1002]);  // OperationsSupported
    push_u16_array(&mut v, &[]);  // EventsSupported
    push_u16_array(&mut v, &[0x5001]);  // DevicePropertiesSupported
    push_u16_array(&mut v, &[]);  // CaptureFormats
    push_u16_array(&mut v, &[0x3801]);  // ImageFormats
    push_ptp_str(&mut v, "Maker");  // Manufacturer
    push_ptp_str(&mut v, "Model X");  // Model
    push_ptp_str(&mut v, "1.0");  // DeviceVersion
    push_ptp_str(&mut v, "SN42");  // SerialNumber
    v
}

#[test]
fn device_info_decodes() {
    let bytes = device_info_bytes();
    let d = DeviceInfo::decode(bytes.as_slice()).unwrap();
    assert_eq!(d.Version, 100);
    assert_eq!(d.VendorExID, 6);
    assert_eq!(d.VendorExVersion, 1);
    assert_eq!(d.VendorExtensionDesc, "");
    assert_eq!(d.FunctionalMode, 0);
    assert_eq!(d.OperationsSupported, vec![0x1001, 0x1002]);
    assert_eq!(d.EventsSupported, Vec::<u16>::new());
    assert_eq!(d.DevicePropertiesSupported, vec![0x5001]);
    assert_eq!(d.CaptureFormats, Vec::<u16>::new());
    assert_eq!(d.ImageFormats, vec![0x3801]);
    assert_eq!(d.Manufacturer, "Maker");
    assert_eq!(d.Model, "Model X");
    assert_eq!(d.DeviceVersion, "1.0");
    assert_eq!(d.SerialNumber, "SN42");
}

#[test]
fn device_info_rejects_one_byte_off() {
    let bytes = device_info_bytes();
    let mut long = bytes.clone();
    long.push(0);
    assert!(DeviceInfo::decode(long.as_slice()).is_err());
    let short = &bytes[..bytes.len() - 1];
    assert!(DeviceInfo::decode(short).is_err());
}

fn storage_info_bytes() -> Vec<u8> {
    let mut v = Vec::new();
    push_u16(&mut v, 0x0004);  // StorageType
    push_u16(&mut v, 0x0002);  // FilesystemType
    push_u16(&mut v, 0x0000);  // AccessCapability
    push_u64(&mut v, 32_000_000_000);  // MaxCapacity
    push_u64(&mut v, 16_000_000_000);  // FreeSpaceInBytes
    push_u32(&mut v, 0xFFFFFFFF);  // FreeSpaceInImages
    push_ptp_str(&mut v, "Card");  // StorageDescription
    push_ptp_str(&mut v, "VOL1");  // VolumeLabel
    v
}

#[test]
fn storage_info_decodes() {
    let bytes = storage_info_bytes();
    let mut cur = Reader::new(bytes.as_slice());
    let d = StorageInfo::decode(&mut cur).unwrap();
    assert!(cur.expect_end().is_ok());
    assert_eq!(d.StorageType, 0x0004);
    assert_eq!(d.FilesystemType, 0x0002);
    assert_eq!(d.AccessCapability, 0x0000);
    assert_eq!(d.MaxCapacity, 32_000_000_000);
    assert_eq!(d.FreeSpaceInBytes, 16_000_000_000);
    assert_eq!(d.FreeSpaceInImages, 0xFFFFFFFF);
    assert_eq!(d.StorageDescription, "Card");
    assert_eq!(d.VolumeLabel, "VOL1");
}

#[test]
fn storage_info_rejects_one_byte_off() {
    let bytes = storage_info_bytes();
    // one byte long: the decode succeeds mid-stream, the trailing-bytes
    // check fires
    let mut long = bytes.clone();
    long.push(0);
    let mut cur = Reader::new(long.as_slice());
    assert!(StorageInfo::decode(&mut cur).is_ok());
    assert!(cur.expect_end().is_err());
    // one byte short: the decode itself fails
    let short = &bytes[..bytes.len() - 1];
    let mut cur2 = Reader::new(short);
    assert!(StorageInfo::decode(&mut cur2).is_err());
}

fn object_info_bytes() -> Vec<u8> {
    let mut v = Vec::new();
    push_u32(&mut v, 0x00010001);  // StorageID
    push_u16(&mut v, 0x3801);  // ObjectFormat
    push_u16(&mut v, 0);  // ProtectionStatus
    push_u32(&mut v, 123456);  // ObjectCompressedSize
    push_u16(&mut v, 0x3808);  // ThumbFormat
    push_u32(&mut v, 2048);  // ThumbCompressedSize
    push_u32(&mut v, 160);  // ThumbPixWidth
    push_u32(&mut v, 120);  // ThumbPixHeight
    push_u32(&mut v, 4000);  // ImagePixWidth
    push_u32(&mut v, 3000);  // ImagePixHeight
    push_u32(&mut v, 24);  // ImageBitDepth
    push_u32(&mut v, 0);  // ParentObject
    push_u16(&mut v, 0);  // AssociationType
    push_u32(&mut v, 0);  // AssociationDesc
    push_u32(&mut v, 1);  // SequenceNumber
    push_ptp_str(&mut v, "IMG_0001.JPG");  // Filename
    push_ptp_str(&mut v, "20240101T000000");  // CaptureDate
    push_ptp_str(&mut v, "20240102T000000");  // ModificationDate
    push_ptp_str(&mut v, "");  // Keywords
    v
}

#[test]
fn object_info_decodes() {
    let bytes = object_info_bytes();
    let d = ObjectInfo::decode(bytes.as_slice()).unwrap();
    assert_eq!(d.StorageID, 0x00010001);
    assert_eq!(d.ObjectFormat, 0x3801);
    assert_eq!(d.ObjectCompressedSize, 123456);
    assert_eq!(d.ImagePixWidth, 4000);
    assert_eq!(d.ImagePixHeight, 3000);
    assert_eq!(d.SequenceNumber, 1);
    assert_eq!(d.Filename, "IMG_0001.JPG");
    assert_eq!(d.CaptureDate, "20240101T000000");
    assert_eq!(d.ModificationDate, "20240102T000000");
    assert_eq!(d.Keywords, "");
}

#[test]
fn object_info_rejects_one_byte_off() {
    let bytes = object_info_bytes();
    let mut long = bytes.clone();
    long.push(0);
    assert!(ObjectInfo::decode(long.as_slice()).is_err());
    let short = &bytes[..bytes.len() - 1];
    assert!(ObjectInfo::decode(short).is_err());
}

#[test]
fn prop_info_range_decodes() {
    let mut v = Vec::new();
    push_u16(&mut v, 0x5001);  // property_code
    push_u16(&mut v, 0x0002);  // data_type: UINT8
    v.push(1);  // get_set
    v.push(5);  // factory_default
    v.push(10);  // current
    v.push(0x01);  // form flag: Range
    v.push(1);  // min
    v.push(100);  // max
    v.push(1);  // step
    let mut cur = Reader::new(v.as_slice());
    let p = PropInfo::decode(&mut cur).unwrap();
    assert!(cur.expect_end().is_ok());
    assert_eq!(p.property_code, 0x5001);
    assert_eq!(p.data_type, 0x0002);
    assert_eq!(p.get_set, 1);
    assert_eq!(p.factory_default, DataType::UINT8(5));
    assert_eq!(p.current, DataType::UINT8(10));
    match p.form {
        FormData::Range { min_value, max_value, step } => {
            assert_eq!(min_value, DataType::UINT8(1));
            assert_eq!(max_value, DataType::UINT8(100));
            assert_eq!(step, DataType::UINT8(1));
        },
        _ => panic!("unexpected form"),
    }
}

#[test]
fn prop_info_enumeration_decodes() {
    let mut v = Vec::new();
    push_u16(&mut v, 0x500F);  // property_code
    push_u16(&mut v, 0x0004);  // data_type: UINT16
    v.push(0);  // get_set
    push_u16(&mut v, 100);  // factory_default
    push_u16(&mut v, 200);  // current
    v.push(0x02);  // form flag: Enumeration
    push_u16(&mut v, 3);  // element count (u16)
    push_u16(&mut v, 100);
    push_u16(&mut v, 200);
    push_u16(&mut v, 400);
    let mut cur = Reader::new(v.as_slice());
    let p = PropInfo::decode(&mut cur).unwrap();
    assert!(cur.expect_end().is_ok());
    match p.form {
        FormData::Enumeration { array } => {
            assert_eq!(
                array,
                vec![DataType::UINT16(100), DataType::UINT16(200), DataType::UINT16(400)]
            );
        },
        _ => panic!("unexpected form"),
    }
}

#[test]
fn prop_info_no_form_decodes() {
    let mut v = Vec::new();
    push_u16(&mut v, 0x5003);
    push_u16(&mut v, 0x0006);  // UINT32
    v.push(1);
    push_u32(&mut v, 7);
    push_u32(&mut v, 8);
    v.push(0x00);  // form flag: none
    let mut cur = Reader::new(v.as_slice());
    let p = PropInfo::decode(&mut cur).unwrap();
    assert!(cur.expect_end().is_ok());
    assert_eq!(p.factory_default, DataType::UINT32(7));
    assert_eq!(p.current, DataType::UINT32(8));
    assert!(matches!(p.form, FormData::NoForm));
}

#[test]
fn prop_info_sony_reads_is_enable() {
    let mut v = Vec::new();
    push_u16(&mut v, 0x5005);
    push_u16(&mut v, 0x0003);  // INT16
    v.push(1);  // get_set
    v.push(2);  // is_enable
    push_u16(&mut v, 0xFFFF);  // factory_default: -1
    push_u16(&mut v, 0x0005);  // current: 5
    v.push(0x00);
    let mut cur = Reader::new(v.as_slice());
    let p = PropInfoSony::decode(&mut cur).unwrap();
    assert!(cur.expect_end().is_ok());
    assert_eq!(p.get_set, 1);
    assert_eq!(p.is_enable, 2);
    assert_eq!(p.factory_default, DataType::INT16(-1));
    assert_eq!(p.current, DataType::INT16(5));
}

#[test]
fn prop_info_string_property_decodes() {
    let mut v = Vec::new();
    push_u16(&mut v, 0xD402);
    push_u16(&mut v, 0xFFFF);  // STR
    v.push(0);
    push_ptp_str(&mut v, "a");  // factory_default
    push_ptp_str(&mut v, "b");  // current
    v.push(0x00);
    let mut cur = Reader::new(v.as_slice());
    let p = PropInfo::decode(&mut cur).unwrap();
    assert!(cur.expect_end().is_ok());
    assert_eq!(p.factory_default, DataType::STR("a".to_owned()));
    assert_eq!(p.current, DataType::STR("b".to_owned()));
}
