//! The library's unified error type.

use vstd::prelude::*;
use crate::fmt_num::spec_hex4;
use crate::fmt_num::u16_hex4;
use crate::StandardResponseCode;

verus! {

/// An error in a PTP command.
#[derive(Debug)]
pub enum Error {
    /// The PTP responder returned a status code other than Ok: a constant
    /// of `StandardResponseCode` or a vendor-defined code.
    Response(u16),
    /// Data received was malformed.
    Malformed(String),
    /// An error of the USB transport.
    Usb(rusb::Error),
}

/// The mathematical value of an `Error`: the message as a character
/// sequence.
pub enum ErrorView {
    Response(u16),
    Malformed(Seq<char>),
    Usb(rusb::Error),
}

impl View for Error {
    type V = ErrorView;

    open spec fn view(&self) -> ErrorView {
        match self {
            Error::Response(c) => ErrorView::Response(*c),
            Error::Malformed(m) => ErrorView::Malformed(m@),
            Error::Usb(e) => ErrorView::Usb(*e),
        }
    }
}

/// The message a malformed truncated buffer produces.
pub open spec fn eof_message() -> Seq<char> {
    "Unexpected end of message"@
}

/// What `message` renders for each error: the response code's name (or
/// "Unknown") with the code in hexadecimal, the malformed message itself,
/// or a fixed marker for transport errors.
pub open spec fn spec_message(e: ErrorView) -> Seq<char> {
    match e {
        ErrorView::Response(c) => (match StandardResponseCode::spec_name(c) {
            Some(n) => n,
            None => "Unknown"@,
        }) + " (0x"@ + spec_hex4(c) + ")"@,
        ErrorView::Malformed(m) => m,
        ErrorView::Usb(_) => "USB error"@,
    }
}

impl Error {
    /// The error rendered as text, e.g. `InvalidObjectHandle (0x2009)`.
    pub fn message(&self) -> (r: String)
        ensures
            r@ == spec_message(self@),
    {
        match self {
            Error::Response(c) => {
                let mut s = match StandardResponseCode::name(*c) {
                    Some(n) => n.to_owned(),
                    None => "Unknown".to_owned(),
                };
                s.append(" (0x");
                let hex = u16_hex4(*c);
                s.append(hex.as_str());
                s.append(")");
                s
            },
            Error::Malformed(m) => m.clone(),
            Error::Usb(_) => "USB error".to_owned(),
        }
    }
}

/// The error for a buffer that ended before a read was complete.
pub fn eof_error() -> (e: Error)
    ensures
        e@ == ErrorView::Malformed(eof_message()),
{
    Error::Malformed("Unexpected end of message".to_owned())
}

/// The message for string data that is not well-formed UTF-16.
pub open spec fn invalid_utf16_message() -> Seq<char> {
    "Invalid UTF16 data"@
}

/// The error for string data that is not well-formed UTF-16.
pub fn invalid_utf16_error() -> (e: Error)
    ensures
        e@ == ErrorView::Malformed(invalid_utf16_message()),
{
    Error::Malformed("Invalid UTF16 data".to_owned())
}

impl From<rusb::Error> for Error {
    /// Wraps a transport error.
    fn from(e: rusb::Error) -> (r: Error) {
        Error::Usb(e)
    }
}

impl vstd::std_specs::convert::FromSpecImpl<rusb::Error> for Error {
    open spec fn obeys_from_spec() -> bool {
        true
    }

    open spec fn from_spec(e: rusb::Error) -> Error {
        Error::Usb(e)
    }
}

} // verus!
