//! Error types of the serial server and the texts they carry.
//!
//! `SerialError` is the crate-wide error. The narrower error kinds
//! (`ConnectionError`, `ProtocolError`, `SessionError`, `ConfigError`,
//! `DataError`) each fold into one `SerialError` variant that carries their
//! message.

use vstd::prelude::*;
use crate::codec::{Base64DecodeError, HexDecodeError, Utf8Failure};
use crate::text::{concat2, decimal, hex2_lower, owned, push_hex2_lower, push_str, usize_to_string};

verus! {

/// `std::string::FromUtf8Error`, converted into [`SerialError::Utf8Error`].
#[verifier::external_type_specification]
#[verifier::external_body]
pub struct ExFromUtf8Error(std::string::FromUtf8Error);

/// `std::io::Error`, carried by [`SerialError::IoError`].
#[verifier::external_type_specification]
#[verifier::external_body]
pub struct ExIoError(std::io::Error);

/// `serialport::Error`, converted into [`SerialError::SerialPortError`].
#[verifier::external_type_specification]
#[verifier::external_body]
pub struct ExSerialPortError(serialport::Error);

/// `serde_json::Error`, carried by [`SerialError::SerializationError`].
#[verifier::external_type_specification]
#[verifier::external_body]
pub struct ExJsonError(serde_json::Error);

/// `toml::de::Error`, carried by [`SerialError::TomlError`].
#[verifier::external_type_specification]
#[verifier::external_body]
pub struct ExTomlDeError(toml::de::Error);

/// `std::io::ErrorKind`, carried by [`PortErrorKind::Io`].
#[verifier::external_type_specification]
#[verifier::external_body]
pub struct ExIoErrorKind(std::io::ErrorKind);

/// What kind of failure a serial port reported (`serialport::ErrorKind`).
#[derive(Debug, Clone, Copy)]
pub enum PortErrorKind {
    /// The device is not available.
    NoDevice,
    /// A parameter was incorrect.
    InvalidInput,
    /// An unknown error occurred.
    Unknown,
    /// An I/O error occurred, of the inner kind.
    Io(std::io::ErrorKind),
}

/// A failure a serial port reported (`serialport::Error`): its kind and a
/// description suitable for end users.
#[derive(Debug, Clone)]
pub struct PortFailure {
    pub kind: PortErrorKind,
    pub description: String,
}

impl PortFailure {
    /// The message of the failure: its description.
    pub open spec fn text(&self) -> Seq<char> {
        self.description@
    }
}

/// `serialport::Error` as a [`PortFailure`]: its kind, variant for variant,
/// and its description, moved over. The outside error is opaque here, so
/// nothing ties the result to it in a contract.
#[verifier::external_body]
pub(crate) fn port_failure_of(e: serialport::Error) -> PortFailure {
    let kind = match e.kind {
        serialport::ErrorKind::NoDevice => PortErrorKind::NoDevice,
        serialport::ErrorKind::InvalidInput => PortErrorKind::InvalidInput,
        serialport::ErrorKind::Unknown => PortErrorKind::Unknown,
        serialport::ErrorKind::Io(k) => PortErrorKind::Io(k),
    };
    PortFailure { kind, description: e.description }
}

/// Main error type for the serial MCP server.
#[derive(Debug)]
pub enum SerialError {
    PortNotFound(String),
    ConnectionFailed(String),
    InvalidConnection(String),
    ConnectionExists(String),
    ConnectionLimitExceeded(usize),
    OperationTimeout,
    ReadTimeout,
    WriteTimeout,
    CommunicationError(String),
    ProtocolError(String),
    BufferOverflow,
    BufferUnderflow,
    InvalidConfig(String),
    InvalidBaudRate(u32),
    InvalidDataBits(u8),
    InvalidStopBits(String),
    InvalidParity(String),
    InvalidFlowControl(String),
    InvalidSession(String),
    SessionLimitExceeded(usize),
    SessionNotFound(String),
    SessionExists(String),
    EncodingError(String),
    /// Bytes that are not UTF-8, and where they stop being so.
    Utf8Error(Utf8Failure),
    /// Hexadecimal text that `hex::decode` refused, and why.
    HexError(HexDecodeError),
    /// Base64 text that the `base64` decoder refused, and why.
    Base64Error(Base64DecodeError),
    IoError(std::io::Error),
    /// A failure the serial port reported.
    SerialPortError(PortFailure),
    TokioSerialError(String),
    SerializationError(serde_json::Error),
    TomlError(toml::de::Error),
    InternalError(String),
    NotImplemented(String),
}

/// The error categories that [`SerialError::category`] reports.
pub open spec fn category_of(e: SerialError) -> Seq<char> {
    match e {
        SerialError::PortNotFound(_) | SerialError::ConnectionFailed(_)
        | SerialError::InvalidConnection(_) | SerialError::ConnectionExists(_)
        | SerialError::ConnectionLimitExceeded(_) => "connection"@,
        SerialError::OperationTimeout | SerialError::ReadTimeout | SerialError::WriteTimeout
        | SerialError::CommunicationError(_) | SerialError::ProtocolError(_)
        | SerialError::BufferOverflow | SerialError::BufferUnderflow => "communication"@,
        SerialError::InvalidConfig(_) | SerialError::InvalidBaudRate(_)
        | SerialError::InvalidDataBits(_) | SerialError::InvalidStopBits(_)
        | SerialError::InvalidParity(_) | SerialError::InvalidFlowControl(_) => "configuration"@,
        SerialError::InvalidSession(_) | SerialError::SessionLimitExceeded(_)
        | SerialError::SessionNotFound(_) | SerialError::SessionExists(_) => "session"@,
        SerialError::EncodingError(_) | SerialError::Utf8Error(_) | SerialError::HexError(_)
        | SerialError::Base64Error(_) => "encoding"@,
        SerialError::IoError(_) | SerialError::SerialPortError(_)
        | SerialError::TokioSerialError(_) => "system"@,
        SerialError::SerializationError(_) | SerialError::TomlError(_) => "serialization"@,
        SerialError::InternalError(_) | SerialError::NotImplemented(_) => "internal"@,
    }
}

impl SerialError {
    /// Errors after which the connection can be retried.
    pub open spec fn spec_is_recoverable(&self) -> bool {
        ||| self is OperationTimeout
        ||| self is ReadTimeout
        ||| self is WriteTimeout
        ||| self is CommunicationError
        ||| self is BufferOverflow
        ||| self is BufferUnderflow
        ||| self is TokioSerialError
    }

    /// Errors that report a bad configuration.
    pub open spec fn spec_is_configuration_error(&self) -> bool {
        ||| self is InvalidConfig
        ||| self is InvalidBaudRate
        ||| self is InvalidDataBits
        ||| self is InvalidStopBits
        ||| self is InvalidParity
        ||| self is InvalidFlowControl
    }

    /// Errors about connection management.
    pub open spec fn spec_is_connection_error(&self) -> bool {
        ||| self is PortNotFound
        ||| self is ConnectionFailed
        ||| self is InvalidConnection
        ||| self is ConnectionExists
        ||| self is ConnectionLimitExceeded
    }

    /// Check if error is recoverable (connection can be retried).
    pub fn is_recoverable(&self) -> (r: bool)
        ensures
            r == self.spec_is_recoverable(),
    {
        match self {
            SerialError::OperationTimeout | SerialError::ReadTimeout | SerialError::WriteTimeout
            | SerialError::CommunicationError(_) | SerialError::BufferOverflow
            | SerialError::BufferUnderflow | SerialError::TokioSerialError(_) => true,
            _ => false,
        }
    }

    /// Check if error is a configuration issue.
    pub fn is_configuration_error(&self) -> (r: bool)
        ensures
            r == self.spec_is_configuration_error(),
    {
        match self {
            SerialError::InvalidConfig(_) | SerialError::InvalidBaudRate(_)
            | SerialError::InvalidDataBits(_) | SerialError::InvalidStopBits(_)
            | SerialError::InvalidParity(_) | SerialError::InvalidFlowControl(_) => true,
            _ => false,
        }
    }

    /// Check if error is related to connection management.
    pub fn is_connection_error(&self) -> (r: bool)
        ensures
            r == self.spec_is_connection_error(),
    {
        match self {
            SerialError::PortNotFound(_) | SerialError::ConnectionFailed(_)
            | SerialError::InvalidConnection(_) | SerialError::ConnectionExists(_)
            | SerialError::ConnectionLimitExceeded(_) => true,
            _ => false,
        }
    }

    /// Get error category for logging and metrics.
    pub fn category(&self) -> (r: &'static str)
        ensures
            r@ == category_of(*self),
    {
        match self {
            SerialError::PortNotFound(_) | SerialError::ConnectionFailed(_)
            | SerialError::InvalidConnection(_) | SerialError::ConnectionExists(_)
            | SerialError::ConnectionLimitExceeded(_) => "connection",
            SerialError::OperationTimeout | SerialError::ReadTimeout | SerialError::WriteTimeout
            | SerialError::CommunicationError(_) | SerialError::ProtocolError(_)
            | SerialError::BufferOverflow | SerialError::BufferUnderflow => "communication",
            SerialError::InvalidConfig(_) | SerialError::InvalidBaudRate(_)
            | SerialError::InvalidDataBits(_) | SerialError::InvalidStopBits(_)
            | SerialError::InvalidParity(_) | SerialError::InvalidFlowControl(_) => "configuration",
            SerialError::InvalidSession(_) | SerialError::SessionLimitExceeded(_)
            | SerialError::SessionNotFound(_) | SerialError::SessionExists(_) => "session",
            SerialError::EncodingError(_) | SerialError::Utf8Error(_) | SerialError::HexError(_)
            | SerialError::Base64Error(_) => "encoding",
            SerialError::IoError(_) | SerialError::SerialPortError(_)
            | SerialError::TokioSerialError(_) => "system",
            SerialError::SerializationError(_) | SerialError::TomlError(_) => "serialization",
            SerialError::InternalError(_) | SerialError::NotImplemented(_) => "internal",
        }
    }
}

/// `<std::io::Error as Display>::fmt`; the text depends on the operating
/// system and is not stated.
#[verifier::external_body]
pub(crate) fn io_error_text(e: &std::io::Error) -> String {
    e.to_string()
}

/// `<serde_json::Error as Display>::fmt`; not stated here.
#[verifier::external_body]
fn json_error_text(e: &serde_json::Error) -> String {
    e.to_string()
}

/// `<toml::de::Error as Display>::fmt`; not stated here.
#[verifier::external_body]
fn toml_error_text(e: &toml::de::Error) -> String {
    e.to_string()
}

impl SerialError {
    /// The message of this error, for the variants that carry only text and
    /// numbers; `None` for those that wrap an error of another library.
    pub open spec fn known_text(&self) -> Option<Seq<char>> {
        match self {
            SerialError::PortNotFound(s) => Some("Port not found: "@ + s@),
            SerialError::ConnectionFailed(s) => Some("Connection failed: "@ + s@),
            SerialError::InvalidConnection(s) => Some("Invalid connection ID: "@ + s@),
            SerialError::ConnectionExists(s) => Some("Connection already exists: "@ + s@),
            SerialError::ConnectionLimitExceeded(n) => Some(
                "Connection limit exceeded (max: "@ + decimal(*n as nat) + ")"@,
            ),
            SerialError::OperationTimeout => Some("Operation timeout"@),
            SerialError::ReadTimeout => Some("Read timeout"@),
            SerialError::WriteTimeout => Some("Write timeout"@),
            SerialError::CommunicationError(s) => Some("Communication error: "@ + s@),
            SerialError::ProtocolError(s) => Some("Protocol error: "@ + s@),
            SerialError::BufferOverflow => Some("Buffer overflow"@),
            SerialError::BufferUnderflow => Some("Buffer underflow"@),
            SerialError::InvalidConfig(s) => Some("Invalid configuration: "@ + s@),
            SerialError::InvalidBaudRate(b) => Some("Invalid baud rate: "@ + decimal(*b as nat)),
            SerialError::InvalidDataBits(d) => Some("Invalid data bits: "@ + decimal(*d as nat)),
            SerialError::InvalidStopBits(s) => Some("Invalid stop bits: "@ + s@),
            SerialError::InvalidParity(s) => Some("Invalid parity: "@ + s@),
            SerialError::InvalidFlowControl(s) => Some("Invalid flow control: "@ + s@),
            SerialError::InvalidSession(s) => Some("Invalid session ID: "@ + s@),
            SerialError::SessionLimitExceeded(n) => Some(
                "Session limit exceeded (max: "@ + decimal(*n as nat) + ")"@,
            ),
            SerialError::SessionNotFound(s) => Some("Session not found: "@ + s@),
            SerialError::SessionExists(s) => Some("Session already exists: "@ + s@),
            SerialError::EncodingError(s) => Some("Encoding error: "@ + s@),
            SerialError::Utf8Error(f) => Some("UTF-8 conversion error: "@ + f.text()),
            SerialError::HexError(e) => Some("Hex decoding error: "@ + e.text()),
            SerialError::Base64Error(e) => Some("Base64 decoding error: "@ + e.text()),
            SerialError::SerialPortError(p) => Some("Serial port error: "@ + p.text()),
            SerialError::TokioSerialError(s) => Some("Tokio serial error: "@ + s@),
            SerialError::InternalError(s) => Some("Internal error: "@ + s@),
            SerialError::NotImplemented(s) => Some("Not implemented: "@ + s@),
            _ => None,
        }
    }

    /// The label that starts the message of an error that wraps another.
    pub open spec fn label(&self) -> Seq<char> {
        match self {
            SerialError::IoError(_) => "I/O error: "@,
            SerialError::SerializationError(_) => "Serialization error: "@,
            SerialError::TomlError(_) => "TOML parsing error: "@,
            _ => Seq::empty(),
        }
    }

    /// Renders the message of this error; an error that wraps another is its
    /// label followed by the wrapped error's own message.
    pub fn message(&self) -> (r: String)
        ensures
            self.known_text() matches Some(t) ==> r@ == t,
            self.known_text() is None ==> r@.len() >= self.label().len() && r@.take(self.label().len() as int)
                == self.label(),
    {
        let r = match self {
            SerialError::PortNotFound(s) => concat2("Port not found: ", s.as_str()),
            SerialError::ConnectionFailed(s) => concat2("Connection failed: ", s.as_str()),
            SerialError::InvalidConnection(s) => concat2("Invalid connection ID: ", s.as_str()),
            SerialError::ConnectionExists(s) => concat2("Connection already exists: ", s.as_str()),
            SerialError::ConnectionLimitExceeded(n) => {
                let mut m = concat2("Connection limit exceeded (max: ", usize_to_string(*n).as_str());
                push_str(&mut m, ")");
                m
            },
            SerialError::OperationTimeout => owned("Operation timeout"),
            SerialError::ReadTimeout => owned("Read timeout"),
            SerialError::WriteTimeout => owned("Write timeout"),
            SerialError::CommunicationError(s) => concat2("Communication error: ", s.as_str()),
            SerialError::ProtocolError(s) => concat2("Protocol error: ", s.as_str()),
            SerialError::BufferOverflow => owned("Buffer overflow"),
            SerialError::BufferUnderflow => owned("Buffer underflow"),
            SerialError::InvalidConfig(s) => concat2("Invalid configuration: ", s.as_str()),
            SerialError::InvalidBaudRate(b) => concat2(
                "Invalid baud rate: ",
                crate::text::u64_to_string(*b as u64).as_str(),
            ),
            SerialError::InvalidDataBits(d) => concat2(
                "Invalid data bits: ",
                crate::text::u64_to_string(*d as u64).as_str(),
            ),
            SerialError::InvalidStopBits(s) => concat2("Invalid stop bits: ", s.as_str()),
            SerialError::InvalidParity(s) => concat2("Invalid parity: ", s.as_str()),
            SerialError::InvalidFlowControl(s) => concat2("Invalid flow control: ", s.as_str()),
            SerialError::InvalidSession(s) => concat2("Invalid session ID: ", s.as_str()),
            SerialError::SessionLimitExceeded(n) => {
                let mut m = concat2("Session limit exceeded (max: ", usize_to_string(*n).as_str());
                push_str(&mut m, ")");
                m
            },
            SerialError::SessionNotFound(s) => concat2("Session not found: ", s.as_str()),
            SerialError::SessionExists(s) => concat2("Session already exists: ", s.as_str()),
            SerialError::EncodingError(s) => concat2("Encoding error: ", s.as_str()),
            SerialError::Utf8Error(f) => concat2("UTF-8 conversion error: ", f.message().as_str()),
            SerialError::HexError(e) => concat2("Hex decoding error: ", e.message().as_str()),
            SerialError::Base64Error(e) => concat2("Base64 decoding error: ", e.message().as_str()),
            SerialError::IoError(e) => concat2("I/O error: ", io_error_text(e).as_str()),
            SerialError::SerialPortError(p) => concat2("Serial port error: ", p.description.as_str()),
            SerialError::TokioSerialError(s) => concat2("Tokio serial error: ", s.as_str()),
            SerialError::SerializationError(e) => concat2("Serialization error: ", json_error_text(e).as_str()),
            SerialError::TomlError(e) => concat2("TOML parsing error: ", toml_error_text(e).as_str()),
            SerialError::InternalError(s) => concat2("Internal error: ", s.as_str()),
            SerialError::NotImplemented(s) => concat2("Not implemented: ", s.as_str()),
        };
        proof {
            if self.known_text() is None {
                assert(r@.take(self.label().len() as int) =~= self.label());
            }
        }
        r
    }
}

/// Connection specific errors.
#[derive(Debug)]
pub enum ConnectionError {
    OpenFailed { port: String, reason: String },
    ConfigureFailed { port: String, reason: String },
    ConnectionLost(String),
    ConnectionBusy,
    NotConnected,
    InvalidState { expected: String, actual: String },
}

impl ConnectionError {
    /// The message of this error.
    pub open spec fn text(&self) -> Seq<char> {
        match self {
            ConnectionError::OpenFailed { port, reason } => "Failed to open port "@ + port@ + ": "@
                + reason@,
            ConnectionError::ConfigureFailed { port, reason } => "Failed to configure port "@
                + port@ + ": "@ + reason@,
            ConnectionError::ConnectionLost(s) => "Connection lost: "@ + s@,
            ConnectionError::ConnectionBusy => "Connection busy"@,
            ConnectionError::NotConnected => "Connection not established"@,
            ConnectionError::InvalidState { expected, actual } =>
                "Invalid connection state: expected "@ + expected@ + ", got "@ + actual@,
        }
    }

    /// Renders the message of this error.
    pub fn message(&self) -> (r: String)
        ensures
            r@ == self.text(),
    {
        match self {
            ConnectionError::OpenFailed { port, reason } => {
                let mut s = concat2("Failed to open port ", port.as_str());
                push_str(&mut s, ": ");
                push_str(&mut s, reason.as_str());
                s
            },
            ConnectionError::ConfigureFailed { port, reason } => {
                let mut s = concat2("Failed to configure port ", port.as_str());
                push_str(&mut s, ": ");
                push_str(&mut s, reason.as_str());
                s
            },
            ConnectionError::ConnectionLost(m) => concat2("Connection lost: ", m.as_str()),
            ConnectionError::ConnectionBusy => owned("Connection busy"),
            ConnectionError::NotConnected => owned("Connection not established"),
            ConnectionError::InvalidState { expected, actual } => {
                let mut s = concat2("Invalid connection state: expected ", expected.as_str());
                push_str(&mut s, ", got ");
                push_str(&mut s, actual.as_str());
                s
            },
        }
    }

    /// The crate-wide error for this one: a failed connection with this message.
    pub fn into_serial_error(self) -> (r: SerialError)
        ensures
            r matches SerialError::ConnectionFailed(m) && m@ == self.text(),
    {
        SerialError::ConnectionFailed(self.message())
    }
}

/// Protocol specific errors.
#[derive(Debug)]
pub enum ProtocolError {
    UnknownProtocol(String),
    ProtocolViolation(String),
    ChecksumMismatch { expected: u8, actual: u8 },
    InvalidFrameFormat(String),
    FrameTooLarge { size: usize, max_size: usize },
    FrameTooSmall { size: usize, min_size: usize },
    UnsupportedOperation(String),
}

impl ProtocolError {
    /// The message of this error.
    pub open spec fn text(&self) -> Seq<char> {
        match self {
            ProtocolError::UnknownProtocol(s) => "Unknown protocol: "@ + s@,
            ProtocolError::ProtocolViolation(s) => "Protocol violation: "@ + s@,
            ProtocolError::ChecksumMismatch { expected, actual } => "Checksum mismatch: expected "@
                + hex2_lower(*expected) + ", got "@ + hex2_lower(*actual),
            ProtocolError::InvalidFrameFormat(s) => "Invalid frame format: "@ + s@,
            ProtocolError::FrameTooLarge { size, max_size } => "Frame too large: "@ + decimal(
                *size as nat,
            ) + " bytes (max: "@ + decimal(*max_size as nat) + ")"@,
            ProtocolError::FrameTooSmall { size, min_size } => "Frame too small: "@ + decimal(
                *size as nat,
            ) + " bytes (min: "@ + decimal(*min_size as nat) + ")"@,
            ProtocolError::UnsupportedOperation(s) => "Unsupported operation: "@ + s@,
        }
    }

    /// Renders the message of this error.
    pub fn message(&self) -> (r: String)
        ensures
            r@ == self.text(),
    {
        match self {
            ProtocolError::UnknownProtocol(m) => concat2("Unknown protocol: ", m.as_str()),
            ProtocolError::ProtocolViolation(m) => concat2("Protocol violation: ", m.as_str()),
            ProtocolError::ChecksumMismatch { expected, actual } => {
                let mut s = owned("Checksum mismatch: expected ");
                push_hex2_lower(&mut s, *expected);
                push_str(&mut s, ", got ");
                push_hex2_lower(&mut s, *actual);
                s
            },
            ProtocolError::InvalidFrameFormat(m) => concat2("Invalid frame format: ", m.as_str()),
            ProtocolError::FrameTooLarge { size, max_size } => {
                let mut s = owned("Frame too large: ");
                push_str(&mut s, usize_to_string(*size).as_str());
                push_str(&mut s, " bytes (max: ");
                push_str(&mut s, usize_to_string(*max_size).as_str());
                push_str(&mut s, ")");
                s
            },
            ProtocolError::FrameTooSmall { size, min_size } => {
                let mut s = owned("Frame too small: ");
                push_str(&mut s, usize_to_string(*size).as_str());
                push_str(&mut s, " bytes (min: ");
                push_str(&mut s, usize_to_string(*min_size).as_str());
                push_str(&mut s, ")");
                s
            },
            ProtocolError::UnsupportedOperation(m) => concat2("Unsupported operation: ", m.as_str()),
        }
    }

    /// The crate-wide error for this one: a protocol error with this message.
    pub fn into_serial_error(self) -> (r: SerialError)
        ensures
            r matches SerialError::ProtocolError(m) && m@ == self.text(),
    {
        SerialError::ProtocolError(self.message())
    }
}

/// Session management errors.
#[derive(Debug)]
pub enum SessionError {
    CreationFailed(String),
    NotActive(String),
    Timeout(String),
    Conflict(String),
    CleanupFailed(String),
}

impl SessionError {
    /// The message of this error.
    pub open spec fn text(&self) -> Seq<char> {
        match self {
            SessionError::CreationFailed(s) => "Session creation failed: "@ + s@,
            SessionError::NotActive(s) => "Session not active: "@ + s@,
            SessionError::Timeout(s) => "Session timeout: "@ + s@,
            SessionError::Conflict(s) => "Session conflict: "@ + s@,
            SessionError::CleanupFailed(s) => "Session cleanup failed: "@ + s@,
        }
    }

    /// Renders the message of this error.
    pub fn message(&self) -> (r: String)
        ensures
            r@ == self.text(),
    {
        match self {
            SessionError::CreationFailed(m) => concat2("Session creation failed: ", m.as_str()),
            SessionError::NotActive(m) => concat2("Session not active: ", m.as_str()),
            SessionError::Timeout(m) => concat2("Session timeout: ", m.as_str()),
            SessionError::Conflict(m) => concat2("Session conflict: ", m.as_str()),
            SessionError::CleanupFailed(m) => concat2("Session cleanup failed: ", m.as_str()),
        }
    }

    /// The crate-wide error for this one: an internal error with this message.
    pub fn into_serial_error(self) -> (r: SerialError)
        ensures
            r matches SerialError::InternalError(m) && m@ == self.text(),
    {
        SerialError::InternalError(self.message())
    }
}

/// Configuration validation errors.
#[derive(Debug)]
pub enum ConfigError {
    MissingField(String),
    InvalidValue { field: String, value: String },
    ValueOutOfRange { field: String, value: String, min: String, max: String },
    ConflictingSettings(String),
    FileNotFound(String),
    FileNotReadable(String),
}

impl ConfigError {
    /// The message of this error.
    pub open spec fn text(&self) -> Seq<char> {
        match self {
            ConfigError::MissingField(s) => "Missing required field: "@ + s@,
            ConfigError::InvalidValue { field, value } => "Invalid value for "@ + field@ + ": "@
                + value@,
            ConfigError::ValueOutOfRange { field, value, min, max } => "Value out of range for "@
                + field@ + ": "@ + value@ + " (range: "@ + min@ + "-"@ + max@ + ")"@,
            ConfigError::ConflictingSettings(s) => "Conflicting settings: "@ + s@,
            ConfigError::FileNotFound(s) => "Configuration file not found: "@ + s@,
            ConfigError::FileNotReadable(s) => "Configuration file not readable: "@ + s@,
        }
    }

    /// Renders the message of this error.
    pub fn message(&self) -> (r: String)
        ensures
            r@ == self.text(),
    {
        match self {
            ConfigError::MissingField(m) => concat2("Missing required field: ", m.as_str()),
            ConfigError::InvalidValue { field, value } => {
                let mut s = concat2("Invalid value for ", field.as_str());
                push_str(&mut s, ": ");
                push_str(&mut s, value.as_str());
                s
            },
            ConfigError::ValueOutOfRange { field, value, min, max } => {
                let mut s = concat2("Value out of range for ", field.as_str());
                push_str(&mut s, ": ");
                push_str(&mut s, value.as_str());
                push_str(&mut s, " (range: ");
                push_str(&mut s, min.as_str());
                push_str(&mut s, "-");
                push_str(&mut s, max.as_str());
                push_str(&mut s, ")");
                s
            },
            ConfigError::ConflictingSettings(m) => concat2("Conflicting settings: ", m.as_str()),
            ConfigError::FileNotFound(m) => concat2("Configuration file not found: ", m.as_str()),
            ConfigError::FileNotReadable(m) => concat2(
                "Configuration file not readable: ",
                m.as_str(),
            ),
        }
    }

    /// The crate-wide error for this one: an invalid configuration with this message.
    pub fn into_serial_error(self) -> (r: SerialError)
        ensures
            r matches SerialError::InvalidConfig(m) && m@ == self.text(),
    {
        SerialError::InvalidConfig(self.message())
    }
}

/// Data processing errors.
#[derive(Debug)]
pub enum DataError {
    InvalidFormat { expected: String, actual: String },
    DataCorruption(String),
    BufferSizeExceeded { size: usize, max_size: usize },
    IncompleteData { expected: usize, actual: usize },
    InvalidEncoding(String),
}

impl DataError {
    /// The message of this error.
    pub open spec fn text(&self) -> Seq<char> {
        match self {
            DataError::InvalidFormat { expected, actual } => "Invalid data format: expected "@
                + expected@ + ", got "@ + actual@,
            DataError::DataCorruption(s) => "Data corruption detected: "@ + s@,
            DataError::BufferSizeExceeded { size, max_size } => "Buffer size exceeded: "@
                + decimal(*size as nat) + " bytes (max: "@ + decimal(*max_size as nat) + ")"@,
            DataError::IncompleteData { expected, actual } => "Incomplete data: expected "@
                + decimal(*expected as nat) + " bytes, got "@ + decimal(*actual as nat),
            DataError::InvalidEncoding(s) => "Invalid encoding: "@ + s@,
        }
    }

    /// Renders the message of this error.
    pub fn message(&self) -> (r: String)
        ensures
            r@ == self.text(),
    {
        match self {
            DataError::InvalidFormat { expected, actual } => {
                let mut s = concat2("Invalid data format: expected ", expected.as_str());
                push_str(&mut s, ", got ");
                push_str(&mut s, actual.as_str());
                s
            },
            DataError::DataCorruption(m) => concat2("Data corruption detected: ", m.as_str()),
            DataError::BufferSizeExceeded { size, max_size } => {
                let mut s = owned("Buffer size exceeded: ");
                push_str(&mut s, usize_to_string(*size).as_str());
                push_str(&mut s, " bytes (max: ");
                push_str(&mut s, usize_to_string(*max_size).as_str());
                push_str(&mut s, ")");
                s
            },
            DataError::IncompleteData { expected, actual } => {
                let mut s = owned("Incomplete data: expected ");
                push_str(&mut s, usize_to_string(*expected).as_str());
                push_str(&mut s, " bytes, got ");
                push_str(&mut s, usize_to_string(*actual).as_str());
                s
            },
            DataError::InvalidEncoding(m) => concat2("Invalid encoding: ", m.as_str()),
        }
    }

    /// The crate-wide error for this one: an encoding error with this message.
    pub fn into_serial_error(self) -> (r: SerialError)
        ensures
            r matches SerialError::EncodingError(m) && m@ == self.text(),
    {
        SerialError::EncodingError(self.message())
    }
}

/// The crate-wide error for a `ConnectionError`: a failed connection carrying its message.
impl From<ConnectionError> for SerialError {
    fn from(error: ConnectionError) -> (r: SerialError)
        ensures
            r matches SerialError::ConnectionFailed(m) && m@ == error.text(),
    {
        error.into_serial_error()
    }
}

/// The message a conversion carries is a fresh `String`, which no spec
/// value names; `From::from` states it instead (see its `ensures`).
impl vstd::std_specs::convert::FromSpecImpl<ConnectionError> for SerialError {
    open spec fn obeys_from_spec() -> bool {
        false
    }

    open spec fn from_spec(error: ConnectionError) -> SerialError {
        SerialError::ConnectionFailed(arbitrary())
    }
}

/// The crate-wide error for a `ProtocolError`: a protocol error carrying its message.
impl From<ProtocolError> for SerialError {
    fn from(error: ProtocolError) -> (r: SerialError)
        ensures
            r matches SerialError::ProtocolError(m) && m@ == error.text(),
    {
        error.into_serial_error()
    }
}

/// The message a conversion carries is a fresh `String`, which no spec
/// value names; `From::from` states it instead (see its `ensures`).
impl vstd::std_specs::convert::FromSpecImpl<ProtocolError> for SerialError {
    open spec fn obeys_from_spec() -> bool {
        false
    }

    open spec fn from_spec(error: ProtocolError) -> SerialError {
        SerialError::ProtocolError(arbitrary())
    }
}

/// The crate-wide error for a `SessionError`: an internal error carrying its message.
impl From<SessionError> for SerialError {
    fn from(error: SessionError) -> (r: SerialError)
        ensures
            r matches SerialError::InternalError(m) && m@ == error.text(),
    {
        error.into_serial_error()
    }
}

/// The message a conversion carries is a fresh `String`, which no spec
/// value names; `From::from` states it instead (see its `ensures`).
impl vstd::std_specs::convert::FromSpecImpl<SessionError> for SerialError {
    open spec fn obeys_from_spec() -> bool {
        false
    }

    open spec fn from_spec(error: SessionError) -> SerialError {
        SerialError::InternalError(arbitrary())
    }
}

/// The crate-wide error for a `ConfigError`: an invalid configuration carrying its message.
impl From<ConfigError> for SerialError {
    fn from(error: ConfigError) -> (r: SerialError)
        ensures
            r matches SerialError::InvalidConfig(m) && m@ == error.text(),
    {
        error.into_serial_error()
    }
}

/// The message a conversion carries is a fresh `String`, which no spec
/// value names; `From::from` states it instead (see its `ensures`).
impl vstd::std_specs::convert::FromSpecImpl<ConfigError> for SerialError {
    open spec fn obeys_from_spec() -> bool {
        false
    }

    open spec fn from_spec(error: ConfigError) -> SerialError {
        SerialError::InvalidConfig(arbitrary())
    }
}

/// The crate-wide error for a `DataError`: an encoding error carrying its message.
impl From<DataError> for SerialError {
    fn from(error: DataError) -> (r: SerialError)
        ensures
            r matches SerialError::EncodingError(m) && m@ == error.text(),
    {
        error.into_serial_error()
    }
}

/// The message a conversion carries is a fresh `String`, which no spec
/// value names; `From::from` states it instead (see its `ensures`).
impl vstd::std_specs::convert::FromSpecImpl<DataError> for SerialError {
    open spec fn obeys_from_spec() -> bool {
        false
    }

    open spec fn from_spec(error: DataError) -> SerialError {
        SerialError::EncodingError(arbitrary())
    }
}

/// Hexadecimal text that could not be decoded.
impl From<HexDecodeError> for SerialError {
    fn from(e: HexDecodeError) -> (r: SerialError) {
        SerialError::HexError(e)
    }
}

impl vstd::std_specs::convert::FromSpecImpl<HexDecodeError> for SerialError {
    open spec fn obeys_from_spec() -> bool {
        true
    }

    open spec fn from_spec(e: HexDecodeError) -> SerialError {
        SerialError::HexError(e)
    }
}

/// Base64 text that could not be decoded.
impl From<Base64DecodeError> for SerialError {
    fn from(e: Base64DecodeError) -> (r: SerialError) {
        SerialError::Base64Error(e)
    }
}

impl vstd::std_specs::convert::FromSpecImpl<Base64DecodeError> for SerialError {
    open spec fn obeys_from_spec() -> bool {
        true
    }

    open spec fn from_spec(e: Base64DecodeError) -> SerialError {
        SerialError::Base64Error(e)
    }
}

/// Bytes that are not UTF-8.
impl From<Utf8Failure> for SerialError {
    fn from(e: Utf8Failure) -> (r: SerialError) {
        SerialError::Utf8Error(e)
    }
}

impl vstd::std_specs::convert::FromSpecImpl<Utf8Failure> for SerialError {
    open spec fn obeys_from_spec() -> bool {
        true
    }

    open spec fn from_spec(e: Utf8Failure) -> SerialError {
        SerialError::Utf8Error(e)
    }
}

/// A failure the serial port reported.
impl From<PortFailure> for SerialError {
    fn from(e: PortFailure) -> (r: SerialError) {
        SerialError::SerialPortError(e)
    }
}

impl vstd::std_specs::convert::FromSpecImpl<PortFailure> for SerialError {
    open spec fn obeys_from_spec() -> bool {
        true
    }

    open spec fn from_spec(e: PortFailure) -> SerialError {
        SerialError::SerialPortError(e)
    }
}

/// An I/O error.
impl From<std::io::Error> for SerialError {
    fn from(e: std::io::Error) -> (r: SerialError) {
        SerialError::IoError(e)
    }
}

impl vstd::std_specs::convert::FromSpecImpl<std::io::Error> for SerialError {
    open spec fn obeys_from_spec() -> bool {
        true
    }

    open spec fn from_spec(e: std::io::Error) -> SerialError {
        SerialError::IoError(e)
    }
}

/// A JSON (de)serialization error.
impl From<serde_json::Error> for SerialError {
    fn from(e: serde_json::Error) -> (r: SerialError) {
        SerialError::SerializationError(e)
    }
}

impl vstd::std_specs::convert::FromSpecImpl<serde_json::Error> for SerialError {
    open spec fn obeys_from_spec() -> bool {
        true
    }

    open spec fn from_spec(e: serde_json::Error) -> SerialError {
        SerialError::SerializationError(e)
    }
}

/// A TOML parsing error.
impl From<toml::de::Error> for SerialError {
    fn from(e: toml::de::Error) -> (r: SerialError) {
        SerialError::TomlError(e)
    }
}

impl vstd::std_specs::convert::FromSpecImpl<toml::de::Error> for SerialError {
    open spec fn obeys_from_spec() -> bool {
        true
    }

    open spec fn from_spec(e: toml::de::Error) -> SerialError {
        SerialError::TomlError(e)
    }
}

/// The error `hex::decode` reports, as this library's hexadecimal error.
impl From<hex::FromHexError> for SerialError {
    fn from(e: hex::FromHexError) -> (r: SerialError)
        ensures
            r is HexError,
    {
        SerialError::HexError(crate::codec::hex_error_of(e))
    }
}

/// The converted error is read out of an opaque outside value, which no
/// spec value names; `From::from` states its variant instead.
impl vstd::std_specs::convert::FromSpecImpl<hex::FromHexError> for SerialError {
    open spec fn obeys_from_spec() -> bool {
        false
    }

    open spec fn from_spec(e: hex::FromHexError) -> SerialError {
        SerialError::HexError(arbitrary())
    }
}

/// The error the base64 decoders report, as this library's base64 error.
impl From<base64::DecodeError> for SerialError {
    fn from(e: base64::DecodeError) -> (r: SerialError)
        ensures
            r is Base64Error,
    {
        SerialError::Base64Error(crate::codec::base64_error_of(e))
    }
}

/// The converted error is read out of an opaque outside value, which no
/// spec value names; `From::from` states its variant instead.
impl vstd::std_specs::convert::FromSpecImpl<base64::DecodeError> for SerialError {
    open spec fn obeys_from_spec() -> bool {
        false
    }

    open spec fn from_spec(e: base64::DecodeError) -> SerialError {
        SerialError::Base64Error(arbitrary())
    }
}

/// The error `String::from_utf8` reports, read as where the bytes stop being UTF-8.
impl From<std::string::FromUtf8Error> for SerialError {
    fn from(e: std::string::FromUtf8Error) -> (r: SerialError)
        ensures
            r is Utf8Error,
    {
        SerialError::Utf8Error(crate::codec::utf8_failure_of(&e))
    }
}

/// The converted error is read out of an opaque outside value, which no
/// spec value names; `From::from` states its variant instead.
impl vstd::std_specs::convert::FromSpecImpl<std::string::FromUtf8Error> for SerialError {
    open spec fn obeys_from_spec() -> bool {
        false
    }

    open spec fn from_spec(e: std::string::FromUtf8Error) -> SerialError {
        SerialError::Utf8Error(arbitrary())
    }
}

/// The error a serial port reports, read as its kind and description.
impl From<serialport::Error> for SerialError {
    fn from(e: serialport::Error) -> (r: SerialError)
        ensures
            r is SerialPortError,
    {
        SerialError::SerialPortError(port_failure_of(e))
    }
}

/// The converted error is read out of an opaque outside value, which no
/// spec value names; `From::from` states its variant instead.
impl vstd::std_specs::convert::FromSpecImpl<serialport::Error> for SerialError {
    open spec fn obeys_from_spec() -> bool {
        false
    }

    open spec fn from_spec(e: serialport::Error) -> SerialError {
        SerialError::SerialPortError(arbitrary())
    }
}

} // verus!
