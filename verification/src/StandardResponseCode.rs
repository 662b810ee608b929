//! The standard PTP response codes (0x2000-0x2020) and their names.

use vstd::prelude::*;
use crate::ResponseCode;

verus! {

pub const UNDEFINED: ResponseCode = 0x2000;

pub const OK: ResponseCode = 0x2001;

pub const GENERAL_ERROR: ResponseCode = 0x2002;

pub const SESSION_NOT_OPEN: ResponseCode = 0x2003;

pub const INVALID_TRANSACTION_ID: ResponseCode = 0x2004;

pub const OPERATION_NOT_SUPPORTED: ResponseCode = 0x2005;

pub const PARAMETER_NOT_SUPPORTED: ResponseCode = 0x2006;

pub const INCOMPLETE_TRANSFER: ResponseCode = 0x2007;

pub const INVALID_STORAGE_ID: ResponseCode = 0x2008;

pub const INVALID_OBJECT_HANDLE: ResponseCode = 0x2009;

pub const DEVICE_PROP_NOT_SUPPORTED: ResponseCode = 0x200A;

pub const INVALID_OBJECT_FORMAT_CODE: ResponseCode = 0x200B;

pub const STORE_FULL: ResponseCode = 0x200C;

pub const OBJECT_WRITE_PROTECTED: ResponseCode = 0x200D;

pub const STORE_READ_ONLY: ResponseCode = 0x200E;

pub const ACCESS_DENIED: ResponseCode = 0x200F;

pub const NO_THUMBNAIL_PRESENT: ResponseCode = 0x2010;

pub const SELF_TEST_FAILED: ResponseCode = 0x2011;

pub const PARTIAL_DELETION: ResponseCode = 0x2012;

pub const STORE_NOT_AVAILABLE: ResponseCode = 0x2013;

pub const SPECIFICATION_BY_FORMAT_UNSUPPORTED: ResponseCode = 0x2014;

pub const NO_VALID_OBJECT_INFO: ResponseCode = 0x2015;

pub const INVALID_CODE_FORMAT: ResponseCode = 0x2016;

pub const UNKNOWN_VENDOR_CODE: ResponseCode = 0x2017;

pub const CAPTURE_ALREADY_TERMINATED: ResponseCode = 0x2018;

pub const DEVICE_BUSY: ResponseCode = 0x2019;

pub const INVALID_PARENT_OBJECT: ResponseCode = 0x201A;

pub const INVALID_DEVICE_PROP_FORMAT: ResponseCode = 0x201B;

pub const INVALID_DEVICE_PROP_VALUE: ResponseCode = 0x201C;

pub const INVALID_PARAMETER: ResponseCode = 0x201D;

pub const SESSION_ALREADY_OPEN: ResponseCode = 0x201E;

pub const TRANSACTION_CANCELLED: ResponseCode = 0x201F;

pub const SPECIFICATION_OF_DESTINATION_UNSUPPORTED: ResponseCode = 0x2020;

/// The name of a standard response code, or `None` for a code outside the
/// standard table (vendor codes are not errors).
pub open spec fn spec_name(v: ResponseCode) -> Option<Seq<char>> {
    if v == 0x2000 {
        Some("Undefined"@)
    } else if v == 0x2001 {
        Some("Ok"@)
    } else if v == 0x2002 {
        Some("GeneralError"@)
    } else if v == 0x2003 {
        Some("SessionNotOpen"@)
    } else if v == 0x2004 {
        Some("InvalidTransactionId"@)
    } else if v == 0x2005 {
        Some("OperationNotSupported"@)
    } else if v == 0x2006 {
        Some("ParameterNotSupported"@)
    } else if v == 0x2007 {
        Some("IncompleteTransfer"@)
    } else if v == 0x2008 {
        Some("InvalidStorageId"@)
    } else if v == 0x2009 {
        Some("InvalidObjectHandle"@)
    } else if v == 0x200A {
        Some("DevicePropNotSupported"@)
    } else if v == 0x200B {
        Some("InvalidObjectFormatCode"@)
    } else if v == 0x200C {
        Some("StoreFull"@)
    } else if v == 0x200D {
        Some("ObjectWriteProtected"@)
    } else if v == 0x200E {
        Some("StoreReadOnly"@)
    } else if v == 0x200F {
        Some("AccessDenied"@)
    } else if v == 0x2010 {
        Some("NoThumbnailPresent"@)
    } else if v == 0x2011 {
        Some("SelfTestFailed"@)
    } else if v == 0x2012 {
        Some("PartialDeletion"@)
    } else if v == 0x2013 {
        Some("StoreNotAvailable"@)
    } else if v == 0x2014 {
        Some("SpecificationByFormatUnsupported"@)
    } else if v == 0x2015 {
        Some("NoValidObjectInfo"@)
    } else if v == 0x2016 {
        Some("InvalidCodeFormat"@)
    } else if v == 0x2017 {
        Some("UnknownVendorCode"@)
    } else if v == 0x2018 {
        Some("CaptureAlreadyTerminated"@)
    } else if v == 0x2019 {
        Some("DeviceBusy"@)
    } else if v == 0x201A {
        Some("InvalidParentObject"@)
    } else if v == 0x201B {
        Some("InvalidDevicePropFormat"@)
    } else if v == 0x201C {
        Some("InvalidDevicePropValue"@)
    } else if v == 0x201D {
        Some("InvalidParameter"@)
    } else if v == 0x201E {
        Some("SessionAlreadyOpen"@)
    } else if v == 0x201F {
        Some("TransactionCancelled"@)
    } else if v == 0x2020 {
        Some("SpecificationOfDestinationUnsupported"@)
    } else {
        None
    }
}

/// Looks a standard response code up in the name table.
pub fn name(v: ResponseCode) -> (r: Option<&'static str>)
    ensures
        match r {
            Some(s) => spec_name(v) == Some(s@),
            None => spec_name(v) is None,
        },
{
    match v {
        0x2000 => Some("Undefined"),
        0x2001 => Some("Ok"),
        0x2002 => Some("GeneralError"),
        0x2003 => Some("SessionNotOpen"),
        0x2004 => Some("InvalidTransactionId"),
        0x2005 => Some("OperationNotSupported"),
        0x2006 => Some("ParameterNotSupported"),
        0x2007 => Some("IncompleteTransfer"),
        0x2008 => Some("InvalidStorageId"),
        0x2009 => Some("InvalidObjectHandle"),
        0x200A => Some("DevicePropNotSupported"),
        0x200B => Some("InvalidObjectFormatCode"),
        0x200C => Some("StoreFull"),
        0x200D => Some("ObjectWriteProtected"),
        0x200E => Some("StoreReadOnly"),
        0x200F => Some("AccessDenied"),
        0x2010 => Some("NoThumbnailPresent"),
        0x2011 => Some("SelfTestFailed"),
        0x2012 => Some("PartialDeletion"),
        0x2013 => Some("StoreNotAvailable"),
        0x2014 => Some("SpecificationByFormatUnsupported"),
        0x2015 => Some("NoValidObjectInfo"),
        0x2016 => Some("InvalidCodeFormat"),
        0x2017 => Some("UnknownVendorCode"),
        0x2018 => Some("CaptureAlreadyTerminated"),
        0x2019 => Some("DeviceBusy"),
        0x201A => Some("InvalidParentObject"),
        0x201B => Some("InvalidDevicePropFormat"),
        0x201C => Some("InvalidDevicePropValue"),
        0x201D => Some("InvalidParameter"),
        0x201E => Some("SessionAlreadyOpen"),
        0x201F => Some("TransactionCancelled"),
        0x2020 => Some("SpecificationOfDestinationUnsupported"),
        _ => None,
    }
}

} // verus!
