//! The two error kinds of the transport: failures reported by the USB host
//! library, and protocol errors raised by the core or by the device itself.

use vstd::prelude::*;
use crate::text::{decimal_string, spec_decimal};

verus! {

/// The failure kinds the USB host library can report, carried as plain
/// values so that the session logic can decide on them.
#[derive(Clone, Copy, Debug, PartialEq, Eq, Structural)]
pub enum UsbError {
    Io,
    InvalidParam,
    Access,
    NoDevice,
    NotFound,
    Busy,
    Timeout,
    Overflow,
    Pipe,
    Interrupted,
    NoMem,
    NotSupported,
    BadDescriptor,
    Other,
}

/// An error surfaced to the caller of a transport operation: either a
/// transport failure wrapped verbatim, or a protocol error with a message.
#[derive(Debug)]
pub enum PolarError {
    LibusbError { error: UsbError },
    PolarError { error: String },
}

impl PolarError {
    /// Wraps a free-form message as a protocol error.
    pub fn new(message: &str) -> (r: PolarError)
        ensures
            r matches PolarError::PolarError { error } && error@ == message@,
    {
        PolarError::PolarError { error: String::from_str(message) }
    }

    /// Wraps a transport failure.
    pub fn from_usb(error: UsbError) -> (r: PolarError)
        ensures
            r == (PolarError::LibusbError { error }),
    {
        PolarError::LibusbError { error }
    }

    /// The protocol message, or the empty string for a transport failure;
    /// stands in for the display of the error.
    pub fn message(&self) -> (r: String)
        ensures
            self matches PolarError::PolarError { error } ==> r@ == error@,
            self is LibusbError ==> r@.len() == 0,
    {
        match self {
            PolarError::PolarError { error } => error.clone(),
            PolarError::LibusbError { error: _ } => String::new(),
        }
    }
}

/// The message for a device status code, as the device error taxonomy
/// defines it; unknown codes carry the code itself.
pub open spec fn spec_status_message(code: u8) -> Seq<char> {
    if code == 1 {
        "Error: rebooting"@
    } else if code == 2 {
        "Error: try again"@
    } else if code == 100 {
        "Error: unidentified host error"@
    } else if code == 101 {
        "Error: invalid command"@
    } else if code == 102 {
        "Error: invalid parameter"@
    } else if code == 103 {
        "Error: no such file or directory"@
    } else if code == 104 {
        "Error: directory exists"@
    } else if code == 105 {
        "Error: file exists"@
    } else if code == 106 {
        "Error: operation not permitted"@
    } else if code == 107 {
        "Error: no such user"@
    } else if code == 108 {
        "Error: timeout"@
    } else if code == 200 {
        "Error: unidentified device error"@
    } else if code == 201 {
        "Error: not implemented"@
    } else if code == 202 {
        "Error: system busy"@
    } else if code == 203 {
        "Error: invalid content"@
    } else if code == 204 {
        "Error: checksum failure"@
    } else if code == 205 {
        "Error: disk full"@
    } else if code == 206 {
        "Error: prerequisite not found"@
    } else if code == 207 {
        "Error: insufficient buffer"@
    } else if code == 208 {
        "Error: wait for idling"@
    } else {
        "Error: unknown error #"@ + spec_decimal(code as nat)
    }
}

/// The message for a device status code.
pub fn status_message(code: u8) -> (r: String)
    ensures
        r@ == spec_status_message(code),
{
    match code {
        1 => String::from_str("Error: rebooting"),
        2 => String::from_str("Error: try again"),
        100 => String::from_str("Error: unidentified host error"),
        101 => String::from_str("Error: invalid command"),
        102 => String::from_str("Error: invalid parameter"),
        103 => String::from_str("Error: no such file or directory"),
        104 => String::from_str("Error: directory exists"),
        105 => String::from_str("Error: file exists"),
        106 => String::from_str("Error: operation not permitted"),
        107 => String::from_str("Error: no such user"),
        108 => String::from_str("Error: timeout"),
        200 => String::from_str("Error: unidentified device error"),
        201 => String::from_str("Error: not implemented"),
        202 => String::from_str("Error: system busy"),
        203 => String::from_str("Error: invalid content"),
        204 => String::from_str("Error: checksum failure"),
        205 => String::from_str("Error: disk full"),
        206 => String::from_str("Error: prerequisite not found"),
        207 => String::from_str("Error: insufficient buffer"),
        208 => String::from_str("Error: wait for idling"),
        _ => {
            let mut s = String::from_str("Error: unknown error #");
            let num = decimal_string(code as u64);
            s.append(num.as_str());
            s
        },
    }
}

/// The protocol error carrying the message for a device status code.
pub fn status_error(code: u8) -> (r: PolarError)
    ensures
        r matches PolarError::PolarError { error } && error@ == spec_status_message(code),
{
    let message = status_message(code);
    PolarError::PolarError { error: message }
}

} // verus!
