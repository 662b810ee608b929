//! The standard PTP operation codes (0x1000-0x101C) and their names.

use vstd::prelude::*;
use crate::CommandCode;

verus! {

pub const UNDEFINED: CommandCode = 0x1000;

pub const GET_DEVICE_INFO: CommandCode = 0x1001;

pub const OPEN_SESSION: CommandCode = 0x1002;

pub const CLOSE_SESSION: CommandCode = 0x1003;

pub const GET_STORAGE_IDS: CommandCode = 0x1004;

pub const GET_STORAGE_INFO: CommandCode = 0x1005;

pub const GET_NUM_OBJECTS: CommandCode = 0x1006;

pub const GET_OBJECT_HANDLES: CommandCode = 0x1007;

pub const GET_OBJECT_INFO: CommandCode = 0x1008;

pub const GET_OBJECT: CommandCode = 0x1009;

pub const GET_THUMB: CommandCode = 0x100A;

pub const DELETE_OBJECT: CommandCode = 0x100B;

pub const SEND_OBJECT_INFO: CommandCode = 0x100C;

pub const SEND_OBJECT: CommandCode = 0x100D;

pub const INITIATE_CAPTURE: CommandCode = 0x100E;

pub const FORMAT_STORE: CommandCode = 0x100F;

pub const RESET_DEVICE: CommandCode = 0x1010;

pub const SELF_TEST: CommandCode = 0x1011;

pub const SET_OBJECT_PROTECTION: CommandCode = 0x1012;

pub const POWER_DOWN: CommandCode = 0x1013;

pub const GET_DEVICE_PROP_DESC: CommandCode = 0x1014;

pub const GET_DEVICE_PROP_VALUE: CommandCode = 0x1015;

pub const SET_DEVICE_PROP_VALUE: CommandCode = 0x1016;

pub const RESET_DEVICE_PROP_VALUE: CommandCode = 0x1017;

pub const TERMINATE_OPEN_CAPTURE: CommandCode = 0x1018;

pub const MOVE_OBJECT: CommandCode = 0x1019;

pub const COPY_OBJECT: CommandCode = 0x101A;

pub const GET_PARTIAL_OBJECT: CommandCode = 0x101B;

pub const INITIATE_OPEN_CAPTURE: CommandCode = 0x101C;

/// The name of a standard operation code, or `None` for a code outside
/// the standard table.
pub open spec fn spec_name(v: CommandCode) -> Option<Seq<char>> {
    if v == 0x1000 {
        Some("Undefined"@)
    } else if v == 0x1001 {
        Some("GetDeviceInfo"@)
    } else if v == 0x1002 {
        Some("OpenSession"@)
    } else if v == 0x1003 {
        Some("CloseSession"@)
    } else if v == 0x1004 {
        Some("GetStorageIDs"@)
    } else if v == 0x1005 {
        Some("GetStorageInfo"@)
    } else if v == 0x1006 {
        Some("GetNumObjects"@)
    } else if v == 0x1007 {
        Some("GetObjectHandles"@)
    } else if v == 0x1008 {
        Some("GetObjectInfo"@)
    } else if v == 0x1009 {
        Some("GetObject"@)
    } else if v == 0x100A {
        Some("GetThumb"@)
    } else if v == 0x100B {
        Some("DeleteObject"@)
    } else if v == 0x100C {
        Some("SendObjectInfo"@)
    } else if v == 0x100D {
        Some("SendObject"@)
    } else if v == 0x100E {
        Some("InitiateCapture"@)
    } else if v == 0x100F {
        Some("FormatStore"@)
    } else if v == 0x1010 {
        Some("ResetDevice"@)
    } else if v == 0x1011 {
        Some("SelfTest"@)
    } else if v == 0x1012 {
        Some("SetObjectProtection"@)
    } else if v == 0x1013 {
        Some("PowerDown"@)
    } else if v == 0x1014 {
        Some("GetDevicePropDesc"@)
    } else if v == 0x1015 {
        Some("GetDevicePropValue"@)
    } else if v == 0x1016 {
        Some("SetDevicePropValue"@)
    } else if v == 0x1017 {
        Some("ResetDevicePropValue"@)
    } else if v == 0x1018 {
        Some("TerminateOpenCapture"@)
    } else if v == 0x1019 {
        Some("MoveObject"@)
    } else if v == 0x101A {
        Some("CopyObject"@)
    } else if v == 0x101B {
        Some("GetPartialObject"@)
    } else if v == 0x101C {
        Some("InitiateOpenCapture"@)
    } else {
        None
    }
}

/// Looks a standard operation code up in the name table.
pub fn name(v: CommandCode) -> (r: Option<&'static str>)
    ensures
        match r {
            Some(s) => spec_name(v) == Some(s@),
            None => spec_name(v) is None,
        },
{
    match v {
        0x1000 => Some("Undefined"),
        0x1001 => Some("GetDeviceInfo"),
        0x1002 => Some("OpenSession"),
        0x1003 => Some("CloseSession"),
        0x1004 => Some("GetStorageIDs"),
        0x1005 => Some("GetStorageInfo"),
        0x1006 => Some("GetNumObjects"),
        0x1007 => Some("GetObjectHandles"),
        0x1008 => Some("GetObjectInfo"),
        0x1009 => Some("GetObject"),
        0x100A => Some("GetThumb"),
        0x100B => Some("DeleteObject"),
        0x100C => Some("SendObjectInfo"),
        0x100D => Some("SendObject"),
        0x100E => Some("InitiateCapture"),
        0x100F => Some("FormatStore"),
        0x1010 => Some("ResetDevice"),
        0x1011 => Some("SelfTest"),
        0x1012 => Some("SetObjectProtection"),
        0x1013 => Some("PowerDown"),
        0x1014 => Some("GetDevicePropDesc"),
        0x1015 => Some("GetDevicePropValue"),
        0x1016 => Some("SetDevicePropValue"),
        0x1017 => Some("ResetDevicePropValue"),
        0x1018 => Some("TerminateOpenCapture"),
        0x1019 => Some("MoveObject"),
        0x101A => Some("CopyObject"),
        0x101B => Some("GetPartialObject"),
        0x101C => Some("InitiateOpenCapture"),
        _ => None,
    }
}

} // verus!
