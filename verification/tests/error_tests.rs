use serial_mcp_rs::codec::{Base64DecodeError, HexDecodeError};
use serial_mcp_rs::error::{
    ConfigError, ConnectionError, DataError, ProtocolError, SerialError, SessionError,
};

#[test]
fn error_categories() {
    assert_eq!(SerialError::PortNotFound("x".to_string()).category(), "connection");
    assert_eq!(SerialError::ProtocolError("x".to_string()).category(), "communication");
    assert_eq!(SerialError::InvalidParity("x".to_string()).category(), "configuration");
    assert_eq!(SerialError::SessionLimitExceeded(3).category(), "session");
    assert_eq!(SerialError::EncodingError("x".to_string()).category(), "encoding");
    assert_eq!(SerialError::TokioSerialError("x".to_string()).category(), "system");
    assert_eq!(SerialError::NotImplemented("x".to_string()).category(), "internal");
    let io = SerialError::IoError(std::io::Error::new(std::io::ErrorKind::Other, "boom"));
    assert_eq!(io.category(), "system");
}

#[test]
fn error_kinds() {
    assert!(SerialError::ReadTimeout.is_recoverable());
    assert!(SerialError::BufferUnderflow.is_recoverable());
    assert!(!SerialError::PortNotFound("x".to_string()).is_recoverable());
    assert!(SerialError::InvalidBaudRate(1).is_configuration_error());
    assert!(!SerialError::ReadTimeout.is_configuration_error());
    assert!(SerialError::ConnectionLimitExceeded(1).is_connection_error());
    assert!(!SerialError::SessionNotFound("x".to_string()).is_connection_error());
}

#[test]
fn error_messages() {
    assert_eq!(SerialError::ConnectionLimitExceeded(4).message(), "Connection limit exceeded (max: 4)");
    assert_eq!(SerialError::InvalidDataBits(9).message(), "Invalid data bits: 9");
    assert_eq!(SerialError::SessionNotFound("s1".to_string()).message(), "Session not found: s1");
    assert_eq!(SerialError::OperationTimeout.message(), "Operation timeout");
    let io = SerialError::IoError(std::io::Error::new(std::io::ErrorKind::Other, "boom"));
    assert_eq!(io.message(), "I/O error: boom");
    let hex = SerialError::HexError(HexDecodeError::OddLength);
    assert_eq!(hex.message(), "Hex decoding error: Odd number of digits");
    let b64 = SerialError::Base64Error(Base64DecodeError::InvalidByte(3, 64));
    assert_eq!(b64.message(), "Base64 decoding error: Invalid symbol 64, offset 3.");
}

#[test]
fn error_narrow_kinds_fold_into_serial_error() {
    let e = ConnectionError::OpenFailed { port: "COM1".to_string(), reason: "busy".to_string() };
    assert_eq!(e.message(), "Failed to open port COM1: busy");
    match e.into_serial_error() {
        SerialError::ConnectionFailed(m) => assert_eq!(m, "Failed to open port COM1: busy"),
        _ => panic!("expected ConnectionFailed"),
    }
    let e = ProtocolError::ChecksumMismatch { expected: 0x0a, actual: 0xff };
    match e.into_serial_error() {
        SerialError::ProtocolError(m) => assert_eq!(m, "Checksum mismatch: expected 0a, got ff"),
        _ => panic!("expected ProtocolError"),
    }
    let e = ProtocolError::FrameTooLarge { size: 300, max_size: 256 };
    assert_eq!(e.message(), "Frame too large: 300 bytes (max: 256)");
    let e = SessionError::Timeout("s".to_string());
    match e.into_serial_error() {
        SerialError::InternalError(m) => assert_eq!(m, "Session timeout: s"),
        _ => panic!("expected InternalError"),
    }
    let e = ConfigError::ValueOutOfRange {
        field: "f".to_string(),
        value: "9".to_string(),
        min: "1".to_string(),
        max: "5".to_string(),
    };
    match e.into_serial_error() {
        SerialError::InvalidConfig(m) => assert_eq!(m, "Value out of range for f: 9 (range: 1-5)"),
        _ => panic!("expected InvalidConfig"),
    }
    let e = DataError::IncompleteData { expected: 4, actual: 2 };
    match e.into_serial_error() {
        SerialError::EncodingError(m) => assert_eq!(m, "Incomplete data: expected 4 bytes, got 2"),
        _ => panic!("expected EncodingError"),
    }
}

#[test]
fn error_from_narrow_kinds() {
    let e: SerialError = ConnectionError::ConnectionBusy.into();
    assert!(matches!(e, SerialError::ConnectionFailed(ref m) if m == "Connection busy"));
    let e = SerialError::from(ProtocolError::UnknownProtocol("x".to_string()));
    assert!(matches!(e, SerialError::ProtocolError(ref m) if m == "Unknown protocol: x"));
    let e = SerialError::from(SessionError::Conflict("y".to_string()));
    assert!(matches!(e, SerialError::InternalError(ref m) if m == "Session conflict: y"));
    let e = SerialError::from(ConfigError::MissingField("z".to_string()));
    assert!(matches!(e, SerialError::InvalidConfig(ref m) if m == "Missing required field: z"));
    let e = SerialError::from(DataError::InvalidEncoding("w".to_string()));
    assert!(matches!(e, SerialError::EncodingError(ref m) if m == "Invalid encoding: w"));
}

#[test]
fn error_from_outside_errors() {
    let e = SerialError::from(hex::FromHexError::OddLength);
    assert_eq!(e.message(), "Hex decoding error: Odd number of digits");
    let e = SerialError::from(hex::FromHexError::InvalidHexCharacter { c: 'z', index: 3 });
    assert_eq!(e.message(), "Hex decoding error: Invalid character 'z' at position 3");
    let e = SerialError::from(base64::DecodeError::InvalidPadding);
    assert_eq!(e.message(), "Base64 decoding error: Invalid padding");
    let e = SerialError::from(String::from_utf8(vec![0x41, 0xFF]).unwrap_err());
    assert_eq!(e.message(), "UTF-8 conversion error: invalid utf-8 sequence of 1 bytes from index 1");
    let e = SerialError::from(serialport::Error::new(serialport::ErrorKind::NoDevice, "device busy"));
    assert_eq!(e.message(), "Serial port error: device busy");
    assert_eq!(e.category(), "system");
    let e = SerialError::from(std::io::Error::new(std::io::ErrorKind::Other, "boom"));
    assert_eq!(e.message(), "I/O error: boom");
    let e = SerialError::from(HexDecodeError::OddLength);
    assert!(matches!(e, SerialError::HexError(HexDecodeError::OddLength)));
}

#[test]
fn error_serial_layer_from_outside_errors() {
    use_serial_layer();
}

fn use_serial_layer() {
    let e = serial_mcp_rs::serial::error::SerialError::from(serialport::Error::new(
        serialport::ErrorKind::InvalidInput,
        "bad parity",
    ));
    assert_eq!(e.message(), "Serial port error: bad parity");
    let e = serial_mcp_rs::serial::error::SerialError::from(String::from_utf8(vec![0xC3]).unwrap_err());
    assert_eq!(e.message(), "UTF-8 conversion error: incomplete utf-8 byte sequence from index 0");
    let e = serial_mcp_rs::serial::error::SerialError::from(std::io::Error::new(std::io::ErrorKind::Other, "x"));
    assert_eq!(e.message(), "I/O error: x");
}
