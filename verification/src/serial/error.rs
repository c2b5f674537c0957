//! Errors of the serial connection layer.

use vstd::prelude::*;
use crate::text::{concat2, decimal, owned, push_str, u64_to_string};
use crate::codec::Utf8Failure;
use crate::error::{io_error_text, PortFailure};

verus! {

/// Errors raised while opening, using and tracking serial connections.
#[derive(Debug)]
pub enum SerialError {
    PortNotFound(String),
    ConnectionFailed(String),
    InvalidConnection(String),
    ConnectionExists(String),
    InvalidBaudRate(u32),
    InvalidConfig(String),
    ReadTimeout,
    WriteTimeout,
    EncodingError(String),
    IoError(std::io::Error),
    /// A failure the serial port reported.
    SerialPortError(PortFailure),
    /// Bytes that are not UTF-8, and where they stop being so.
    Utf8Error(Utf8Failure),
}

impl SerialError {
    /// The message of this error; `None` for an I/O error, whose text the
    /// operating system gives.
    pub open spec fn known_text(&self) -> Option<Seq<char>> {
        match self {
            SerialError::PortNotFound(s) => Some("Port not found: "@ + s@),
            SerialError::ConnectionFailed(s) => Some("Connection failed: "@ + s@),
            SerialError::InvalidConnection(s) => Some("Invalid connection ID: "@ + s@),
            SerialError::ConnectionExists(s) => Some("Connection already exists: "@ + s@),
            SerialError::InvalidBaudRate(b) => Some("Invalid baud rate: "@ + decimal(*b as nat)),
            SerialError::InvalidConfig(s) => Some("Invalid configuration: "@ + s@),
            SerialError::ReadTimeout => Some("Read timeout"@),
            SerialError::WriteTimeout => Some("Write timeout"@),
            SerialError::EncodingError(s) => Some("Encoding error: "@ + s@),
            SerialError::SerialPortError(p) => Some("Serial port error: "@ + p.text()),
            SerialError::Utf8Error(f) => Some("UTF-8 conversion error: "@ + f.text()),
            _ => None,
        }
    }

    /// The label that starts the message of this error.
    pub open spec fn label(&self) -> Seq<char> {
        match self {
            SerialError::IoError(_) => "I/O error: "@,
            _ => Seq::empty(),
        }
    }

    /// Renders the message of this error.
    pub fn message(&self) -> (r: String)
        ensures
            self.known_text() matches Some(t) ==> r@ == t,
            self.known_text() is None ==> r@.len() >= self.label().len() && r@.subrange(0, self.label().len() as int) == self.label(),
    {
        match self {
            SerialError::PortNotFound(s) => concat2("Port not found: ", s.as_str()),
            SerialError::ConnectionFailed(s) => concat2("Connection failed: ", s.as_str()),
            SerialError::InvalidConnection(s) => concat2("Invalid connection ID: ", s.as_str()),
            SerialError::ConnectionExists(s) => concat2("Connection already exists: ", s.as_str()),
            SerialError::InvalidBaudRate(b) => concat2("Invalid baud rate: ", u64_to_string(*b as u64).as_str()),
            SerialError::InvalidConfig(s) => concat2("Invalid configuration: ", s.as_str()),
            SerialError::ReadTimeout => owned("Read timeout"),
            SerialError::WriteTimeout => owned("Write timeout"),
            SerialError::EncodingError(s) => concat2("Encoding error: ", s.as_str()),
            SerialError::IoError(e) => {
                let r = concat2("I/O error: ", io_error_text(e).as_str());
                assert(r@.subrange(0, self.label().len() as int) =~= self.label());
                r
            },
            SerialError::SerialPortError(p) => concat2("Serial port error: ", p.description.as_str()),
            SerialError::Utf8Error(f) => concat2("UTF-8 conversion error: ", f.message().as_str()),
        }
    }
}

/// An I/O error.
impl From<std::io::Error> for SerialError {
    fn from(e: std::io::Error) -> (r: SerialError) {
        SerialError::IoError(e)
    }
}

impl vstd::std_specs::convert::FromSpecImpl<std::io::Error> for SerialError {
    open spec fn obeys_from_spec() -> bool {
        true
    }

    open spec fn from_spec(e: std::io::Error) -> SerialError {
        SerialError::IoError(e)
    }
}

/// A failure the serial port reported.
impl From<PortFailure> for SerialError {
    fn from(e: PortFailure) -> (r: SerialError) {
        SerialError::SerialPortError(e)
    }
}

impl vstd::std_specs::convert::FromSpecImpl<PortFailure> for SerialError {
    open spec fn obeys_from_spec() -> bool {
        true
    }

    open spec fn from_spec(e: PortFailure) -> SerialError {
        SerialError::SerialPortError(e)
    }
}

/// Bytes that are not UTF-8.
impl From<Utf8Failure> for SerialError {
    fn from(e: Utf8Failure) -> (r: SerialError) {
        SerialError::Utf8Error(e)
    }
}

impl vstd::std_specs::convert::FromSpecImpl<Utf8Failure> for SerialError {
    open spec fn obeys_from_spec() -> bool {
        true
    }

    open spec fn from_spec(e: Utf8Failure) -> SerialError {
        SerialError::Utf8Error(e)
    }
}

/// The error a serial port reports, read as its kind and description.
impl From<serialport::Error> for SerialError {
    fn from(e: serialport::Error) -> (r: SerialError)
        ensures
            r is SerialPortError,
    {
        SerialError::SerialPortError(crate::error::port_failure_of(e))
    }
}

/// The converted error is read out of an opaque outside value, which no
/// spec value names; `From::from` states its variant instead.
impl vstd::std_specs::convert::FromSpecImpl<serialport::Error> for SerialError {
    open spec fn obeys_from_spec() -> bool {
        false
    }

    open spec fn from_spec(e: serialport::Error) -> SerialError {
        SerialError::SerialPortError(arbitrary())
    }
}

/// The error `String::from_utf8` reports, read as where the bytes stop being UTF-8.
impl From<std::string::FromUtf8Error> for SerialError {
    fn from(e: std::string::FromUtf8Error) -> (r: SerialError)
        ensures
            r is Utf8Error,
    {
        SerialError::Utf8Error(crate::codec::utf8_failure_of(&e))
    }
}

/// The converted error is read out of an opaque outside value, which no
/// spec value names; `From::from` states its variant instead.
impl vstd::std_specs::convert::FromSpecImpl<std::string::FromUtf8Error> for SerialError {
    open spec fn obeys_from_spec() -> bool {
        false
    }

    open spec fn from_spec(e: std::string::FromUtf8Error) -> SerialError {
        SerialError::Utf8Error(arbitrary())
    }
}

} // verus!
