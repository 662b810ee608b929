//! The standard PTP dataset decoders: `DeviceInfo`, `StorageInfo` and
//! `ObjectInfo`, each a fixed field order over the wire reader.

use vstd::prelude::*;
use crate::error::{Error, ErrorView};
use crate::reader::{Reader, expect_end_message};
use crate::wire::{sp_u16, sp_u32, sp_u64, sp_str, sp_str_units, sp_array, p_u16,
    lemma_scalar_parser_props, lemma_sp_u16_local, lemma_sp_u32_local, lemma_sp_u64_local,
    lemma_sp_str_ok, lemma_sp_str_local, lemma_sp_array_ok, lemma_sp_array_local,
    lemma_subrange_within};

verus! {

/// A `StorageInfo` dataset: the description of one storage volume.
#[derive(Debug)]
pub struct StorageInfo {
    pub StorageType: u16,
    pub FilesystemType: u16,
    pub AccessCapability: u16,
    pub MaxCapacity: u64,
    pub FreeSpaceInBytes: u64,
    pub FreeSpaceInImages: u32,
    pub StorageDescription: String,
    pub VolumeLabel: String,
}

/// The mathematical value of a `StorageInfo`.
pub struct StorageInfoView {
    pub StorageType: u16,
    pub FilesystemType: u16,
    pub AccessCapability: u16,
    pub MaxCapacity: u64,
    pub FreeSpaceInBytes: u64,
    pub FreeSpaceInImages: u32,
    pub StorageDescription: Seq<char>,
    pub VolumeLabel: Seq<char>,
}

impl View for StorageInfo {
    type V = StorageInfoView;

    open spec fn view(&self) -> StorageInfoView {
        StorageInfoView {
            StorageType: self.StorageType,
            FilesystemType: self.FilesystemType,
            AccessCapability: self.AccessCapability,
            MaxCapacity: self.MaxCapacity,
            FreeSpaceInBytes: self.FreeSpaceInBytes,
            FreeSpaceInImages: self.FreeSpaceInImages,
            StorageDescription: self.StorageDescription@,
            VolumeLabel: self.VolumeLabel@,
        }
    }
}

/// The field chain of a `StorageInfo`, in the normative order.
pub open spec fn spec_parse_storage_info(s: Seq<u8>, i: int) -> Option<(StorageInfoView, int)> {
    match sp_u16(s, i) {
        None => None,
        Some((storage_type, i1)) => match sp_u16(s, i1) {
            None => None,
            Some((filesystem_type, i2)) => match sp_u16(s, i2) {
                None => None,
                Some((access_capability, i3)) => match sp_u64(s, i3) {
                    None => None,
                    Some((max_capacity, i4)) => match sp_u64(s, i4) {
                        None => None,
                        Some((free_bytes, i5)) => match sp_u32(s, i5) {
                            None => None,
                            Some((free_images, i6)) => match sp_str(s, i6) {
                                None => None,
                                Some((description, i7)) => match sp_str(s, i7) {
                                    None => None,
                                    Some((label, i8)) => Some(
                                        (
                                            StorageInfoView {
                                                StorageType: storage_type,
                                                FilesystemType: filesystem_type,
                                                AccessCapability: access_capability,
                                                MaxCapacity: max_capacity,
                                                FreeSpaceInBytes: free_bytes,
                                                FreeSpaceInImages: free_images,
                                                StorageDescription: description,
                                                VolumeLabel: label,
                                            },
                                            i8,
                                        ),
                                    ),
                                },
                            },
                        },
                    },
                },
            },
        },
    }
}

/// A `StorageInfo` parse lies within the buffer.
pub proof fn lemma_parse_storage_info_ok(s: Seq<u8>, i: int)
    ensures
        spec_parse_storage_info(s, i) matches Some((d, j)) ==> 0 <= i <= j <= s.len(),
{
    if spec_parse_storage_info(s, i) is Some {
        let (_, i6) = sp_u32(s, sp_u64(s, sp_u64(s, sp_u16(s, sp_u16(s, sp_u16(s, i).unwrap().1).unwrap().1).unwrap().1).unwrap().1).unwrap().1).unwrap();
        lemma_sp_str_ok(s, i6);
        let i7 = sp_str(s, i6).unwrap().1;
        lemma_sp_str_ok(s, i7);
    }
}

/// A `StorageInfo` parse depends only on the bytes it consumed.
pub proof fn lemma_parse_storage_info_local(s1: Seq<u8>, s2: Seq<u8>, i: int)
    requires
        spec_parse_storage_info(s1, i) is Some,
        spec_parse_storage_info(s1, i).unwrap().1 <= s2.len(),
        s1.subrange(i, spec_parse_storage_info(s1, i).unwrap().1) == s2.subrange(
            i,
            spec_parse_storage_info(s1, i).unwrap().1,
        ),
    ensures
        spec_parse_storage_info(s2, i) == spec_parse_storage_info(s1, i),
{
    let j = spec_parse_storage_info(s1, i).unwrap().1;
    let i1 = sp_u16(s1, i).unwrap().1;
    let i2 = sp_u16(s1, i1).unwrap().1;
    let i3 = sp_u16(s1, i2).unwrap().1;
    let i4 = sp_u64(s1, i3).unwrap().1;
    let i5 = sp_u64(s1, i4).unwrap().1;
    let i6 = sp_u32(s1, i5).unwrap().1;
    let i7 = sp_str(s1, i6).unwrap().1;
    let i8 = sp_str(s1, i7).unwrap().1;
    lemma_sp_str_ok(s1, i6);
    lemma_sp_str_ok(s1, i7);
    assert(i8 == j);
    lemma_subrange_within(s1, s2, i, j, i, i1);
    lemma_sp_u16_local(s1, s2, i);
    lemma_subrange_within(s1, s2, i, j, i1, i2);
    lemma_sp_u16_local(s1, s2, i1);
    lemma_subrange_within(s1, s2, i, j, i2, i3);
    lemma_sp_u16_local(s1, s2, i2);
    lemma_subrange_within(s1, s2, i, j, i3, i4);
    lemma_sp_u64_local(s1, s2, i3);
    lemma_subrange_within(s1, s2, i, j, i4, i5);
    lemma_sp_u64_local(s1, s2, i4);
    lemma_subrange_within(s1, s2, i, j, i5, i6);
    lemma_sp_u32_local(s1, s2, i5);
    assert(sp_str_units(s1, i6).unwrap().1 == i7);
    lemma_subrange_within(s1, s2, i, j, i6, i7);
    lemma_sp_str_local(s1, s2, i6);
    assert(sp_str_units(s1, i7).unwrap().1 == i8);
    lemma_subrange_within(s1, s2, i, j, i7, i8);
    lemma_sp_str_local(s1, s2, i7);
}

/// Law: a `StorageInfo` that occupies a whole buffer no longer parses
/// when the buffer loses its last byte, and when a byte is appended the
/// parse still ends before it, so the trailing-bytes check fires: the
/// whole-buffer decode rejects a buffer one byte short or one byte long.
pub proof fn lemma_storage_info_exact_length(s: Seq<u8>, b: u8)
    requires
        spec_parse_storage_info(s, 0) is Some,
        spec_parse_storage_info(s, 0).unwrap().1 == s.len(),
    ensures
        s.len() > 0 ==> spec_parse_storage_info(s.take(s.len() - 1), 0) is None,
        spec_parse_storage_info(s.push(b), 0) == Some(
            (spec_parse_storage_info(s, 0).unwrap().0, s.len() as int),
        ),
{
    let j = spec_parse_storage_info(s, 0).unwrap().1;
    if s.len() > 0 {
        let m = s.len() - 1;
        if spec_parse_storage_info(s.take(m), 0) is Some {
            let j2 = spec_parse_storage_info(s.take(m), 0).unwrap().1;
            lemma_parse_storage_info_ok(s.take(m), 0);
            assert(j2 <= m);
            assert(s.take(m).subrange(0, j2) =~= s.subrange(0, j2)) by {
                assert forall|x: int| 0 <= x < j2 implies #[trigger] s.take(m).subrange(0, j2)[x]
                    == s.subrange(0, j2)[x] by {
                    assert(s.take(m)[x] == s[x]);
                }
            }
            lemma_parse_storage_info_local(s.take(m), s, 0);
            assert(false);
        }
    }
    assert(s.push(b).subrange(0, j) =~= s.subrange(0, j)) by {
        assert forall|x: int| 0 <= x < j implies #[trigger] s.push(b).subrange(0, j)[x]
            == s.subrange(0, j)[x] by {
            assert(s.push(b)[x] == s[x]);
        }
    }
    lemma_parse_storage_info_local(s, s.push(b), 0);
}

impl StorageInfo {
    /// Reads a `StorageInfo` mid-stream: every field in order, with no
    /// trailing-bytes check, so that it can sit inside a larger buffer.
    pub fn decode<'a>(cur: &mut Reader<'a>) -> (r: Result<StorageInfo, Error>)
        requires
            old(cur).wf(),
        ensures
            final(cur).wf(),
            final(cur).data() == old(cur).data(),
            match r {
                Ok(d) => spec_parse_storage_info(final(cur).data(), old(cur).position()) == Some(
                    (d@, final(cur).position()),
                ),
                Err(e) => spec_parse_storage_info(final(cur).data(), old(cur).position()) is None
                    && e@ matches ErrorView::Malformed(_),
            },
    {
        let storage_type = match cur.read_ptp_u16() {
            Ok(v) => v,
            Err(e) => {
                return Err(e);
            },
        };
        let filesystem_type = match cur.read_ptp_u16() {
            Ok(v) => v,
            Err(e) => {
                return Err(e);
            },
        };
        let access_capability = match cur.read_ptp_u16() {
            Ok(v) => v,
            Err(e) => {
                return Err(e);
            },
        };
        let max_capacity = match cur.read_ptp_u64() {
            Ok(v) => v,
            Err(e) => {
                return Err(e);
            },
        };
        let free_bytes = match cur.read_ptp_u64() {
            Ok(v) => v,
            Err(e) => {
                return Err(e);
            },
        };
        let free_images = match cur.read_ptp_u32() {
            Ok(v) => v,
            Err(e) => {
                return Err(e);
            },
        };
        let description = match cur.read_ptp_str() {
            Ok(v) => v,
            Err(e) => {
                return Err(e);
            },
        };
        let label = match cur.read_ptp_str() {
            Ok(v) => v,
            Err(e) => {
                return Err(e);
            },
        };
        Ok(
            StorageInfo {
                StorageType: storage_type,
                FilesystemType: filesystem_type,
                AccessCapability: access_capability,
                MaxCapacity: max_capacity,
                FreeSpaceInBytes: free_bytes,
                FreeSpaceInImages: free_images,
                StorageDescription: description,
                VolumeLabel: label,
            },
        )
    }
}

/// A `DeviceInfo` dataset: what the device says about itself.
#[derive(Debug)]
pub struct DeviceInfo {
    pub Version: u16,
    pub VendorExID: u32,
    pub VendorExVersion: u16,
    pub VendorExtensionDesc: String,
    pub FunctionalMode: u16,
    pub OperationsSupported: Vec<u16>,
    pub EventsSupported: Vec<u16>,
    pub DevicePropertiesSupported: Vec<u16>,
    pub CaptureFormats: Vec<u16>,
    pub ImageFormats: Vec<u16>,
    pub Manufacturer: String,
    pub Model: String,
    pub DeviceVersion: String,
    pub SerialNumber: String,
}

/// The mathematical value of a `DeviceInfo`.
pub struct DeviceInfoView {
    pub Version: u16,
    pub VendorExID: u32,
    pub VendorExVersion: u16,
    pub VendorExtensionDesc: Seq<char>,
    pub FunctionalMode: u16,
    pub OperationsSupported: Seq<u16>,
    pub EventsSupported: Seq<u16>,
    pub DevicePropertiesSupported: Seq<u16>,
    pub CaptureFormats: Seq<u16>,
    pub ImageFormats: Seq<u16>,
    pub Manufacturer: Seq<char>,
    pub Model: Seq<char>,
    pub DeviceVersion: Seq<char>,
    pub SerialNumber: Seq<char>,
}

impl View for DeviceInfo {
    type V = DeviceInfoView;

    open spec fn view(&self) -> DeviceInfoView {
        DeviceInfoView {
            Version: self.Version,
            VendorExID: self.VendorExID,
            VendorExVersion: self.VendorExVersion,
            VendorExtensionDesc: self.VendorExtensionDesc@,
            FunctionalMode: self.FunctionalMode,
            OperationsSupported: self.OperationsSupported@,
            EventsSupported: self.EventsSupported@,
            DevicePropertiesSupported: self.DevicePropertiesSupported@,
            CaptureFormats: self.CaptureFormats@,
            ImageFormats: self.ImageFormats@,
            Manufacturer: self.Manufacturer@,
            Model: self.Model@,
            DeviceVersion: self.DeviceVersion@,
            SerialNumber: self.SerialNumber@,
        }
    }
}

/// The field chain of a `DeviceInfo`, in the normative order.
pub open spec fn spec_parse_device_info(s: Seq<u8>, i: int) -> Option<(DeviceInfoView, int)> {
    match sp_u16(s, i) {
        None => None,
        Some((version, i1)) => match sp_u32(s, i1) {
            None => None,
            Some((vendor_ex_id, i2)) => match sp_u16(s, i2) {
                None => None,
                Some((vendor_ex_version, i3)) => match sp_str(s, i3) {
                    None => None,
                    Some((vendor_ex_desc, i4)) => match sp_u16(s, i4) {
                        None => None,
                        Some((functional_mode, i5)) => match sp_array(s, i5, p_u16()) {
                            None => None,
                            Some((operations, i6)) => match sp_array(s, i6, p_u16()) {
                                None => None,
                                Some((events, i7)) => match sp_array(s, i7, p_u16()) {
                                    None => None,
                                    Some((properties, i8)) => match sp_array(s, i8, p_u16()) {
                                        None => None,
                                        Some((capture_formats, i9)) => match sp_array(
                                            s,
                                            i9,
                                            p_u16(),
                                        ) {
                                            None => None,
                                            Some((image_formats, i10)) => match sp_str(s, i10) {
                                                None => None,
                                                Some((manufacturer, i11)) => match sp_str(
                                                    s,
                                                    i11,
                                                ) {
                                                    None => None,
                                                    Some((model, i12)) => match sp_str(s, i12) {
                                                        None => None,
                                                        Some((device_version, i13)) => match sp_str(
                                                            s,
                                                            i13,
                                                        ) {
                                                            None => None,
                                                            Some((serial, i14)) => Some(
                                                                (
                                                                    DeviceInfoView {
                                                                        Version: version,
                                                                        VendorExID: vendor_ex_id,
                                                                        VendorExVersion:
                                                                            vendor_ex_version,
                                                                        VendorExtensionDesc:
                                                                            vendor_ex_desc,
                                                                        FunctionalMode:
                                                                            functional_mode,
                                                                        OperationsSupported:
                                                                            operations,
                                                                        EventsSupported: events,
                                                                        DevicePropertiesSupported:
                                                                            properties,
                                                                        CaptureFormats:
                                                                            capture_formats,
                                                                        ImageFormats:
                                                                            image_formats,
                                                                        Manufacturer: manufacturer,
                                                                        Model: model,
                                                                        DeviceVersion:
                                                                            device_version,
                                                                        SerialNumber: serial,
                                                                    },
                                                                    i14,
                                                                ),
                                                            ),
                                                        },
                                                    },
                                                },
                                            },
                                        },
                                    },
                                },
                            },
                        },
                    },
                },
            },
        },
    }
}

/// A `DeviceInfo` parse lies within the buffer.
pub proof fn lemma_parse_device_info_ok(s: Seq<u8>, i: int)
    ensures
        spec_parse_device_info(s, i) matches Some((d, j)) ==> 0 <= i <= j <= s.len(),
{
    lemma_scalar_parser_props();
    if spec_parse_device_info(s, i) is Some {
        let i1 = sp_u16(s, i).unwrap().1;
        let i2 = sp_u32(s, i1).unwrap().1;
        let i3 = sp_u16(s, i2).unwrap().1;
        lemma_sp_str_ok(s, i3);
        let i4 = sp_str(s, i3).unwrap().1;
        let i5 = sp_u16(s, i4).unwrap().1;
        lemma_sp_array_ok(s, i5, p_u16());
        let i6 = sp_array(s, i5, p_u16()).unwrap().1;
        lemma_sp_array_ok(s, i6, p_u16());
        let i7 = sp_array(s, i6, p_u16()).unwrap().1;
        lemma_sp_array_ok(s, i7, p_u16());
        let i8 = sp_array(s, i7, p_u16()).unwrap().1;
        lemma_sp_array_ok(s, i8, p_u16());
        let i9 = sp_array(s, i8, p_u16()).unwrap().1;
        lemma_sp_array_ok(s, i9, p_u16());
        let i10 = sp_array(s, i9, p_u16()).unwrap().1;
        lemma_sp_str_ok(s, i10);
        let i11 = sp_str(s, i10).unwrap().1;
        lemma_sp_str_ok(s, i11);
        let i12 = sp_str(s, i11).unwrap().1;
        lemma_sp_str_ok(s, i12);
        let i13 = sp_str(s, i12).unwrap().1;
        lemma_sp_str_ok(s, i13);
    }
}

/// A `DeviceInfo` parse depends only on the bytes it consumed.
pub proof fn lemma_parse_device_info_local(s1: Seq<u8>, s2: Seq<u8>, i: int)
    requires
        spec_parse_device_info(s1, i) is Some,
        spec_parse_device_info(s1, i).unwrap().1 <= s2.len(),
        s1.subrange(i, spec_parse_device_info(s1, i).unwrap().1) == s2.subrange(
            i,
            spec_parse_device_info(s1, i).unwrap().1,
        ),
    ensures
        spec_parse_device_info(s2, i) == spec_parse_device_info(s1, i),
{
    lemma_scalar_parser_props();
    let j = spec_parse_device_info(s1, i).unwrap().1;
    let i1 = sp_u16(s1, i).unwrap().1;
    let i2 = sp_u32(s1, i1).unwrap().1;
    let i3 = sp_u16(s1, i2).unwrap().1;
    lemma_sp_str_ok(s1, i3);
    let i4 = sp_str(s1, i3).unwrap().1;
    let i5 = sp_u16(s1, i4).unwrap().1;
    lemma_sp_array_ok(s1, i5, p_u16());
    let i6 = sp_array(s1, i5, p_u16()).unwrap().1;
    lemma_sp_array_ok(s1, i6, p_u16());
    let i7 = sp_array(s1, i6, p_u16()).unwrap().1;
    lemma_sp_array_ok(s1, i7, p_u16());
    let i8 = sp_array(s1, i7, p_u16()).unwrap().1;
    lemma_sp_array_ok(s1, i8, p_u16());
    let i9 = sp_array(s1, i8, p_u16()).unwrap().1;
    lemma_sp_array_ok(s1, i9, p_u16());
    let i10 = sp_array(s1, i9, p_u16()).unwrap().1;
    lemma_sp_str_ok(s1, i10);
    let i11 = sp_str(s1, i10).unwrap().1;
    lemma_sp_str_ok(s1, i11);
    let i12 = sp_str(s1, i11).unwrap().1;
    lemma_sp_str_ok(s1, i12);
    let i13 = sp_str(s1, i12).unwrap().1;
    lemma_sp_str_ok(s1, i13);
    let i14 = sp_str(s1, i13).unwrap().1;
    assert(i14 == j);
    lemma_subrange_within(s1, s2, i, j, i, i1);
    lemma_sp_u16_local(s1, s2, i);
    lemma_subrange_within(s1, s2, i, j, i1, i2);
    lemma_sp_u32_local(s1, s2, i1);
    lemma_subrange_within(s1, s2, i, j, i2, i3);
    lemma_sp_u16_local(s1, s2, i2);
    assert(sp_str_units(s1, i3).unwrap().1 == i4);
    lemma_subrange_within(s1, s2, i, j, i3, i4);
    lemma_sp_str_local(s1, s2, i3);
    lemma_subrange_within(s1, s2, i, j, i4, i5);
    lemma_sp_u16_local(s1, s2, i4);
    lemma_subrange_within(s1, s2, i, j, i5, i6);
    lemma_sp_array_local(s1, s2, i5, p_u16());
    lemma_subrange_within(s1, s2, i, j, i6, i7);
    lemma_sp_array_local(s1, s2, i6, p_u16());
    lemma_subrange_within(s1, s2, i, j, i7, i8);
    lemma_sp_array_local(s1, s2, i7, p_u16());
    lemma_subrange_within(s1, s2, i, j, i8, i9);
    lemma_sp_array_local(s1, s2, i8, p_u16());
    lemma_subrange_within(s1, s2, i, j, i9, i10);
    lemma_sp_array_local(s1, s2, i9, p_u16());
    assert(sp_str_units(s1, i10).unwrap().1 == i11);
    lemma_subrange_within(s1, s2, i, j, i10, i11);
    lemma_sp_str_local(s1, s2, i10);
    assert(sp_str_units(s1, i11).unwrap().1 == i12);
    lemma_subrange_within(s1, s2, i, j, i11, i12);
    lemma_sp_str_local(s1, s2, i11);
    assert(sp_str_units(s1, i12).unwrap().1 == i13);
    lemma_subrange_within(s1, s2, i, j, i12, i13);
    lemma_sp_str_local(s1, s2, i12);
    assert(sp_str_units(s1, i13).unwrap().1 == i14);
    lemma_subrange_within(s1, s2, i, j, i13, i14);
    lemma_sp_str_local(s1, s2, i13);
}

/// Law: a `DeviceInfo` that occupies a whole buffer no longer parses
/// when the buffer loses its last byte, and when a byte is appended the
/// parse still ends before it, so the trailing-bytes check fires: the
/// whole-buffer decode rejects a buffer one byte short or one byte long.
pub proof fn lemma_device_info_exact_length(s: Seq<u8>, b: u8)
    requires
        spec_parse_device_info(s, 0) is Some,
        spec_parse_device_info(s, 0).unwrap().1 == s.len(),
    ensures
        s.len() > 0 ==> spec_parse_device_info(s.take(s.len() - 1), 0) is None,
        spec_parse_device_info(s.push(b), 0) == Some(
            (spec_parse_device_info(s, 0).unwrap().0, s.len() as int),
        ),
{
    let j = spec_parse_device_info(s, 0).unwrap().1;
    if s.len() > 0 {
        let m = s.len() - 1;
        if spec_parse_device_info(s.take(m), 0) is Some {
            let j2 = spec_parse_device_info(s.take(m), 0).unwrap().1;
            lemma_parse_device_info_ok(s.take(m), 0);
            assert(j2 <= m);
            assert(s.take(m).subrange(0, j2) =~= s.subrange(0, j2)) by {
                assert forall|x: int| 0 <= x < j2 implies #[trigger] s.take(m).subrange(0, j2)[x]
                    == s.subrange(0, j2)[x] by {
                    assert(s.take(m)[x] == s[x]);
                }
            }
            lemma_parse_device_info_local(s.take(m), s, 0);
            assert(false);
        }
    }
    assert(s.push(b).subrange(0, j) =~= s.subrange(0, j)) by {
        assert forall|x: int| 0 <= x < j implies #[trigger] s.push(b).subrange(0, j)[x]
            == s.subrange(0, j)[x] by {
            assert(s.push(b)[x] == s[x]);
        }
    }
    lemma_parse_device_info_local(s, s.push(b), 0);
}

impl DeviceInfo {
    /// Decodes a whole buffer as a `DeviceInfo`: every field in order,
    /// then the trailing-bytes check.
    pub fn decode(buf: &[u8]) -> (r: Result<DeviceInfo, Error>)
        ensures
            match r {
                Ok(d) => spec_parse_device_info(buf@, 0) == Some((d@, buf@.len() as int)),
                Err(e) => match spec_parse_device_info(buf@, 0) {
                    Some((dv, n)) => n != buf@.len() && e@ == ErrorView::Malformed(
                        expect_end_message(buf@.len() as nat, n as nat),
                    ),
                    None => e@ matches ErrorView::Malformed(_),
                },
            },
    {
        let mut cur = Reader::new(buf);
        let version = match cur.read_ptp_u16() {
            Ok(v) => v,
            Err(e) => {
                return Err(e);
            },
        };
        let vendor_ex_id = match cur.read_ptp_u32() {
            Ok(v) => v,
            Err(e) => {
                return Err(e);
            },
        };
        let vendor_ex_version = match cur.read_ptp_u16() {
            Ok(v) => v,
            Err(e) => {
                return Err(e);
            },
        };
        let vendor_ex_desc = match cur.read_ptp_str() {
            Ok(v) => v,
            Err(e) => {
                return Err(e);
            },
        };
        let functional_mode = match cur.read_ptp_u16() {
            Ok(v) => v,
            Err(e) => {
                return Err(e);
            },
        };
        let operations = match cur.read_ptp_u16_vec() {
            Ok(v) => v,
            Err(e) => {
                return Err(e);
            },
        };
        let events = match cur.read_ptp_u16_vec() {
            Ok(v) => v,
            Err(e) => {
                return Err(e);
            },
        };
        let properties = match cur.read_ptp_u16_vec() {
            Ok(v) => v,
            Err(e) => {
                return Err(e);
            },
        };
        let capture_formats = match cur.read_ptp_u16_vec() {
            Ok(v) => v,
            Err(e) => {
                return Err(e);
            },
        };
        let image_formats = match cur.read_ptp_u16_vec() {
            Ok(v) => v,
            Err(e) => {
                return Err(e);
            },
        };
        let manufacturer = match cur.read_ptp_str() {
            Ok(v) => v,
            Err(e) => {
                return Err(e);
            },
        };
        let model = match cur.read_ptp_str() {
            Ok(v) => v,
            Err(e) => {
                return Err(e);
            },
        };
        let device_version = match cur.read_ptp_str() {
            Ok(v) => v,
            Err(e) => {
                return Err(e);
            },
        };
        let serial = match cur.read_ptp_str() {
            Ok(v) => v,
            Err(e) => {
                return Err(e);
            },
        };
        match cur.expect_end() {
            Ok(()) => {},
            Err(e) => {
                return Err(e);
            },
        }
        Ok(
            DeviceInfo {
                Version: version,
                VendorExID: vendor_ex_id,
                VendorExVersion: vendor_ex_version,
                VendorExtensionDesc: vendor_ex_desc,
                FunctionalMode: functional_mode,
                OperationsSupported: operations,
                EventsSupported: events,
                DevicePropertiesSupported: properties,
                CaptureFormats: capture_formats,
                ImageFormats: image_formats,
                Manufacturer: manufacturer,
                Model: model,
                DeviceVersion: device_version,
                SerialNumber: serial,
            },
        )
    }
}

/// An `ObjectInfo` dataset: the description of one stored object.
#[derive(Debug)]
pub struct ObjectInfo {
    pub StorageID: u32,
    pub ObjectFormat: u16,
    pub ProtectionStatus: u16,
    pub ObjectCompressedSize: u32,
    pub ThumbFormat: u16,
    pub ThumbCompressedSize: u32,
    pub ThumbPixWidth: u32,
    pub ThumbPixHeight: u32,
    pub ImagePixWidth: u32,
    pub ImagePixHeight: u32,
    pub ImageBitDepth: u32,
    pub ParentObject: u32,
    pub AssociationType: u16,
    pub AssociationDesc: u32,
    pub SequenceNumber: u32,
    pub Filename: String,
    pub CaptureDate: String,
    pub ModificationDate: String,
    pub Keywords: String,
}

/// The mathematical value of an `ObjectInfo`.
pub struct ObjectInfoView {
    pub StorageID: u32,
    pub ObjectFormat: u16,
    pub ProtectionStatus: u16,
    pub ObjectCompressedSize: u32,
    pub ThumbFormat: u16,
    pub ThumbCompressedSize: u32,
    pub ThumbPixWidth: u32,
    pub ThumbPixHeight: u32,
    pub ImagePixWidth: u32,
    pub ImagePixHeight: u32,
    pub ImageBitDepth: u32,
    pub ParentObject: u32,
    pub AssociationType: u16,
    pub AssociationDesc: u32,
    pub SequenceNumber: u32,
    pub Filename: Seq<char>,
    pub CaptureDate: Seq<char>,
    pub ModificationDate: Seq<char>,
    pub Keywords: Seq<char>,
}

impl View for ObjectInfo {
    type V = ObjectInfoView;

    open spec fn view(&self) -> ObjectInfoView {
        ObjectInfoView {
            StorageID: self.StorageID,
            ObjectFormat: self.ObjectFormat,
            ProtectionStatus: self.ProtectionStatus,
            ObjectCompressedSize: self.ObjectCompressedSize,
            ThumbFormat: self.ThumbFormat,
            ThumbCompressedSize: self.ThumbCompressedSize,
            ThumbPixWidth: self.ThumbPixWidth,
            ThumbPixHeight: self.ThumbPixHeight,
            ImagePixWidth: self.ImagePixWidth,
            ImagePixHeight: self.ImagePixHeight,
            ImageBitDepth: self.ImageBitDepth,
            ParentObject: self.ParentObject,
            AssociationType: self.AssociationType,
            AssociationDesc: self.AssociationDesc,
            SequenceNumber: self.SequenceNumber,
            Filename: self.Filename@,
            CaptureDate: self.CaptureDate@,
            ModificationDate: self.ModificationDate@,
            Keywords: self.Keywords@,
        }
    }
}

impl Clone for ObjectInfo {
    /// A deep copy with the same mathematical value.
    fn clone(&self) -> (r: ObjectInfo)
        ensures
            r@ == self@,
    {
        ObjectInfo {
            StorageID: self.StorageID,
            ObjectFormat: self.ObjectFormat,
            ProtectionStatus: self.ProtectionStatus,
            ObjectCompressedSize: self.ObjectCompressedSize,
            ThumbFormat: self.ThumbFormat,
            ThumbCompressedSize: self.ThumbCompressedSize,
            ThumbPixWidth: self.ThumbPixWidth,
            ThumbPixHeight: self.ThumbPixHeight,
            ImagePixWidth: self.ImagePixWidth,
            ImagePixHeight: self.ImagePixHeight,
            ImageBitDepth: self.ImageBitDepth,
            ParentObject: self.ParentObject,
            AssociationType: self.AssociationType,
            AssociationDesc: self.AssociationDesc,
            SequenceNumber: self.SequenceNumber,
            Filename: self.Filename.clone(),
            CaptureDate: self.CaptureDate.clone(),
            ModificationDate: self.ModificationDate.clone(),
            Keywords: self.Keywords.clone(),
        }
    }
}

/// The field chain of an `ObjectInfo`, in the normative order.
pub open spec fn spec_parse_object_info(s: Seq<u8>, i: int) -> Option<(ObjectInfoView, int)> {
    match sp_u32(s, i) {
        None => None,
        Some((storage_id, i1)) => match sp_u16(s, i1) {
            None => None,
            Some((object_format, i2)) => match sp_u16(s, i2) {
                None => None,
                Some((protection, i3)) => match sp_u32(s, i3) {
                    None => None,
                    Some((compressed_size, i4)) => match sp_u16(s, i4) {
                        None => None,
                        Some((thumb_format, i5)) => match sp_u32(s, i5) {
                            None => None,
                            Some((thumb_size, i6)) => match sp_u32(s, i6) {
                                None => None,
                                Some((thumb_w, i7)) => match sp_u32(s, i7) {
                                    None => None,
                                    Some((thumb_h, i8)) => match sp_u32(s, i8) {
                                        None => None,
                                        Some((image_w, i9)) => match sp_u32(s, i9) {
                                            None => None,
                                            Some((image_h, i10)) => match sp_u32(s, i10) {
                                                None => None,
                                                Some((bit_depth, i11)) => match sp_u32(s, i11) {
                                                    None => None,
                                                    Some((parent, i12)) => match sp_u16(s, i12) {
                                                        None => None,
                                                        Some((assoc_type, i13)) => match sp_u32(
                                                            s,
                                                            i13,
                                                        ) {
                                                            None => None,
                                                            Some((assoc_desc, i14)) => match sp_u32(
                                                                s,
                                                                i14,
                                                            ) {
                                                                None => None,
                                                                Some((seq_no, i15)) => match sp_str(
                                                                    s,
                                                                    i15,
                                                                ) {
                                                                    None => None,
                                                                    Some(
                                                                        (filename, i16),
                                                                    ) => match sp_str(s, i16) {
                                                                        None => None,
                                                                        Some(
                                                                            (capture_date, i17),
                                                                        ) => match sp_str(
                                                                            s,
                                                                            i17,
                                                                        ) {
                                                                            None => None,
                                                                            Some(
                                                                                (mod_date, i18),
                                                                            ) => match sp_str(
                                                                                s,
                                                                                i18,
                                                                            ) {
                                                                                None => None,
                                                                                Some(
                                                                                    (
                                                                                        keywords,
                                                                                        i19,
                                                                                    ),
                                                                                ) => Some(
                                                                                    (
                                                                                        ObjectInfoView {
                                                                                            StorageID:
                                                                                                storage_id,
                                                                                            ObjectFormat:
                                                                                                object_format,
                                                                                            ProtectionStatus:
                                                                                                protection,
                                                                                            ObjectCompressedSize:
                                                                                                compressed_size,
                                                                                            ThumbFormat:
                                                                                                thumb_format,
                                                                                            ThumbCompressedSize:
                                                                                                thumb_size,
                                                                                            ThumbPixWidth:
                                                                                                thumb_w,
                                                                                            ThumbPixHeight:
                                                                                                thumb_h,
                                                                                            ImagePixWidth:
                                                                                                image_w,
                                                                                            ImagePixHeight:
                                                                                                image_h,
                                                                                            ImageBitDepth:
                                                                                                bit_depth,
                                                                                            ParentObject:
                                                                                                parent,
                                                                                            AssociationType:
                                                                                                assoc_type,
                                                                                            AssociationDesc:
                                                                                                assoc_desc,
                                                                                            SequenceNumber:
                                                                                                seq_no,
                                                                                            Filename:
                                                                                                filename,
                                                                                            CaptureDate:
                                                                                                capture_date,
                                                                                            ModificationDate:
                                                                                                mod_date,
                                                                                            Keywords:
                                                                                                keywords,
                                                                                        },
                                                                                        i19,
                                                                                    ),
                                                                                ),
                                                                            },
                                                                        },
                                                                    },
                                                                },
                                                            },
                                                        },
                                                    },
                                                },
                                            },
                                        },
                                    },
                                },
                            },
                        },
                    },
                },
            },
        },
    }
}

/// An `ObjectInfo` parse lies within the buffer.
pub proof fn lemma_parse_object_info_ok(s: Seq<u8>, i: int)
    ensures
        spec_parse_object_info(s, i) matches Some((d, j)) ==> 0 <= i <= j <= s.len(),
{
    if spec_parse_object_info(s, i) is Some {
        let i1 = sp_u32(s, i).unwrap().1;
        let i2 = sp_u16(s, i1).unwrap().1;
        let i3 = sp_u16(s, i2).unwrap().1;
        let i4 = sp_u32(s, i3).unwrap().1;
        let i5 = sp_u16(s, i4).unwrap().1;
        let i6 = sp_u32(s, i5).unwrap().1;
        let i7 = sp_u32(s, i6).unwrap().1;
        let i8 = sp_u32(s, i7).unwrap().1;
        let i9 = sp_u32(s, i8).unwrap().1;
        let i10 = sp_u32(s, i9).unwrap().1;
        let i11 = sp_u32(s, i10).unwrap().1;
        let i12 = sp_u32(s, i11).unwrap().1;
        let i13 = sp_u16(s, i12).unwrap().1;
        let i14 = sp_u32(s, i13).unwrap().1;
        let i15 = sp_u32(s, i14).unwrap().1;
        lemma_sp_str_ok(s, i15);
        let i16 = sp_str(s, i15).unwrap().1;
        lemma_sp_str_ok(s, i16);
        let i17 = sp_str(s, i16).unwrap().1;
        lemma_sp_str_ok(s, i17);
        let i18 = sp_str(s, i17).unwrap().1;
        lemma_sp_str_ok(s, i18);
    }
}

/// An `ObjectInfo` parse depends only on the bytes it consumed.
pub proof fn lemma_parse_object_info_local(s1: Seq<u8>, s2: Seq<u8>, i: int)
    requires
        spec_parse_object_info(s1, i) is Some,
        spec_parse_object_info(s1, i).unwrap().1 <= s2.len(),
        s1.subrange(i, spec_parse_object_info(s1, i).unwrap().1) == s2.subrange(
            i,
            spec_parse_object_info(s1, i).unwrap().1,
        ),
    ensures
        spec_parse_object_info(s2, i) == spec_parse_object_info(s1, i),
{
    let j = spec_parse_object_info(s1, i).unwrap().1;
    let i1 = sp_u32(s1, i).unwrap().1;
    let i2 = sp_u16(s1, i1).unwrap().1;
    let i3 = sp_u16(s1, i2).unwrap().1;
    let i4 = sp_u32(s1, i3).unwrap().1;
    let i5 = sp_u16(s1, i4).unwrap().1;
    let i6 = sp_u32(s1, i5).unwrap().1;
    let i7 = sp_u32(s1, i6).unwrap().1;
    let i8 = sp_u32(s1, i7).unwrap().1;
    let i9 = sp_u32(s1, i8).unwrap().1;
    let i10 = sp_u32(s1, i9).unwrap().1;
    let i11 = sp_u32(s1, i10).unwrap().1;
    let i12 = sp_u32(s1, i11).unwrap().1;
    let i13 = sp_u16(s1, i12).unwrap().1;
    let i14 = sp_u32(s1, i13).unwrap().1;
    let i15 = sp_u32(s1, i14).unwrap().1;
    lemma_sp_str_ok(s1, i15);
    let i16 = sp_str(s1, i15).unwrap().1;
    lemma_sp_str_ok(s1, i16);
    let i17 = sp_str(s1, i16).unwrap().1;
    lemma_sp_str_ok(s1, i17);
    let i18 = sp_str(s1, i17).unwrap().1;
    lemma_sp_str_ok(s1, i18);
    let i19 = sp_str(s1, i18).unwrap().1;
    assert(i19 == j);
    lemma_subrange_within(s1, s2, i, j, i, i1);
    lemma_sp_u32_local(s1, s2, i);
    lemma_subrange_within(s1, s2, i, j, i1, i2);
    lemma_sp_u16_local(s1, s2, i1);
    lemma_subrange_within(s1, s2, i, j, i2, i3);
    lemma_sp_u16_local(s1, s2, i2);
    lemma_subrange_within(s1, s2, i, j, i3, i4);
    lemma_sp_u32_local(s1, s2, i3);
    lemma_subrange_within(s1, s2, i, j, i4, i5);
    lemma_sp_u16_local(s1, s2, i4);
    lemma_subrange_within(s1, s2, i, j, i5, i6);
    lemma_sp_u32_local(s1, s2, i5);
    lemma_subrange_within(s1, s2, i, j, i6, i7);
    lemma_sp_u32_local(s1, s2, i6);
    lemma_subrange_within(s1, s2, i, j, i7, i8);
    lemma_sp_u32_local(s1, s2, i7);
    lemma_subrange_within(s1, s2, i, j, i8, i9);
    lemma_sp_u32_local(s1, s2, i8);
    lemma_subrange_within(s1, s2, i, j, i9, i10);
    lemma_sp_u32_local(s1, s2, i9);
    lemma_subrange_within(s1, s2, i, j, i10, i11);
    lemma_sp_u32_local(s1, s2, i10);
    lemma_subrange_within(s1, s2, i, j, i11, i12);
    lemma_sp_u32_local(s1, s2, i11);
    lemma_subrange_within(s1, s2, i, j, i12, i13);
    lemma_sp_u16_local(s1, s2, i12);
    lemma_subrange_within(s1, s2, i, j, i13, i14);
    lemma_sp_u32_local(s1, s2, i13);
    lemma_subrange_within(s1, s2, i, j, i14, i15);
    lemma_sp_u32_local(s1, s2, i14);
    assert(sp_str_units(s1, i15).unwrap().1 == i16);
    lemma_subrange_within(s1, s2, i, j, i15, i16);
    lemma_sp_str_local(s1, s2, i15);
    assert(sp_str_units(s1, i16).unwrap().1 == i17);
    lemma_subrange_within(s1, s2, i, j, i16, i17);
    lemma_sp_str_local(s1, s2, i16);
    assert(sp_str_units(s1, i17).unwrap().1 == i18);
    lemma_subrange_within(s1, s2, i, j, i17, i18);
    lemma_sp_str_local(s1, s2, i17);
    assert(sp_str_units(s1, i18).unwrap().1 == i19);
    lemma_subrange_within(s1, s2, i, j, i18, i19);
    lemma_sp_str_local(s1, s2, i18);
}

/// Law: an `ObjectInfo` that occupies a whole buffer no longer parses
/// when the buffer loses its last byte, and when a byte is appended the
/// parse still ends before it, so the trailing-bytes check fires: the
/// whole-buffer decode rejects a buffer one byte short or one byte long.
pub proof fn lemma_object_info_exact_length(s: Seq<u8>, b: u8)
    requires
        spec_parse_object_info(s, 0) is Some,
        spec_parse_object_info(s, 0).unwrap().1 == s.len(),
    ensures
        s.len() > 0 ==> spec_parse_object_info(s.take(s.len() - 1), 0) is None,
        spec_parse_object_info(s.push(b), 0) == Some(
            (spec_parse_object_info(s, 0).unwrap().0, s.len() as int),
        ),
{
    let j = spec_parse_object_info(s, 0).unwrap().1;
    if s.len() > 0 {
        let m = s.len() - 1;
        if spec_parse_object_info(s.take(m), 0) is Some {
            let j2 = spec_parse_object_info(s.take(m), 0).unwrap().1;
            lemma_parse_object_info_ok(s.take(m), 0);
            assert(j2 <= m);
            assert(s.take(m).subrange(0, j2) =~= s.subrange(0, j2)) by {
                assert forall|x: int| 0 <= x < j2 implies #[trigger] s.take(m).subrange(0, j2)[x]
                    == s.subrange(0, j2)[x] by {
                    assert(s.take(m)[x] == s[x]);
                }
            }
            lemma_parse_object_info_local(s.take(m), s, 0);
            assert(false);
        }
    }
    assert(s.push(b).subrange(0, j) =~= s.subrange(0, j)) by {
        assert forall|x: int| 0 <= x < j implies #[trigger] s.push(b).subrange(0, j)[x]
            == s.subrange(0, j)[x] by {
            assert(s.push(b)[x] == s[x]);
        }
    }
    lemma_parse_object_info_local(s, s.push(b), 0);
}

impl ObjectInfo {
    /// Decodes a whole buffer as an `ObjectInfo`: every field in order,
    /// then the trailing-bytes check.
    pub fn decode(buf: &[u8]) -> (r: Result<ObjectInfo, Error>)
        ensures
            match r {
                Ok(d) => spec_parse_object_info(buf@, 0) == Some((d@, buf@.len() as int)),
                Err(e) => match spec_parse_object_info(buf@, 0) {
                    Some((dv, n)) => n != buf@.len() && e@ == ErrorView::Malformed(
                        expect_end_message(buf@.len() as nat, n as nat),
                    ),
                    None => e@ matches ErrorView::Malformed(_),
                },
            },
    {
        let mut cur = Reader::new(buf);
        let storage_id = match cur.read_ptp_u32() {
            Ok(v) => v,
            Err(e) => {
                return Err(e);
            },
        };
        let object_format = match cur.read_ptp_u16() {
            Ok(v) => v,
            Err(e) => {
                return Err(e);
            },
        };
        let protection = match cur.read_ptp_u16() {
            Ok(v) => v,
            Err(e) => {
                return Err(e);
            },
        };
        let compressed_size = match cur.read_ptp_u32() {
            Ok(v) => v,
            Err(e) => {
                return Err(e);
            },
        };
        let thumb_format = match cur.read_ptp_u16() {
            Ok(v) => v,
            Err(e) => {
                return Err(e);
            },
        };
        let thumb_size = match cur.read_ptp_u32() {
            Ok(v) => v,
            Err(e) => {
                return Err(e);
            },
        };
        let thumb_w = match cur.read_ptp_u32() {
            Ok(v) => v,
            Err(e) => {
                return Err(e);
            },
        };
        let thumb_h = match cur.read_ptp_u32() {
            Ok(v) => v,
            Err(e) => {
                return Err(e);
            },
        };
        let image_w = match cur.read_ptp_u32() {
            Ok(v) => v,
            Err(e) => {
                return Err(e);
            },
        };
        let image_h = match cur.read_ptp_u32() {
            Ok(v) => v,
            Err(e) => {
                return Err(e);
            },
        };
        let bit_depth = match cur.read_ptp_u32() {
            Ok(v) => v,
            Err(e) => {
                return Err(e);
            },
        };
        let parent = match cur.read_ptp_u32() {
            Ok(v) => v,
            Err(e) => {
                return Err(e);
            },
        };
        let assoc_type = match cur.read_ptp_u16() {
            Ok(v) => v,
            Err(e) => {
                return Err(e);
            },
        };
        let assoc_desc = match cur.read_ptp_u32() {
            Ok(v) => v,
            Err(e) => {
                return Err(e);
            },
        };
        let seq_no = match cur.read_ptp_u32() {
            Ok(v) => v,
            Err(e) => {
                return Err(e);
            },
        };
        let filename = match cur.read_ptp_str() {
            Ok(v) => v,
            Err(e) => {
                return Err(e);
            },
        };
        let capture_date = match cur.read_ptp_str() {
            Ok(v) => v,
            Err(e) => {
                return Err(e);
            },
        };
        let mod_date = match cur.read_ptp_str() {
            Ok(v) => v,
            Err(e) => {
                return Err(e);
            },
        };
        let keywords = match cur.read_ptp_str() {
            Ok(v) => v,
            Err(e) => {
                return Err(e);
            },
        };
        match cur.expect_end() {
            Ok(()) => {},
            Err(e) => {
                return Err(e);
            },
        }
        Ok(
            ObjectInfo {
                StorageID: storage_id,
                ObjectFormat: object_format,
                ProtectionStatus: protection,
                ObjectCompressedSize: compressed_size,
                ThumbFormat: thumb_format,
                ThumbCompressedSize: thumb_size,
                ThumbPixWidth: thumb_w,
                ThumbPixHeight: thumb_h,
                ImagePixWidth: image_w,
                ImagePixHeight: image_h,
                ImageBitDepth: bit_depth,
                ParentObject: parent,
                AssociationType: assoc_type,
                AssociationDesc: assoc_desc,
                SequenceNumber: seq_no,
                Filename: filename,
                CaptureDate: capture_date,
                ModificationDate: mod_date,
                Keywords: keywords,
            },
        )
    }
}

} // verus!
