use serial_mcp_rs::serial::{ConnectionConfig, DataBits, FlowControl, Parity, StopBits};
use serial_mcp_rs::tools::types::{decode_data, encode_data};
use serial_mcp_rs::tools::types::{
    default_data_bits, default_encoding, default_flow_control, default_max_bytes, default_parity,
    default_stop_bits, OpenArgs,
};

#[test]
fn test_decode_utf8() {
    let result = decode_data("Hello, 世界!", "utf8").unwrap();
    assert_eq!(result, "Hello, 世界!".as_bytes());
}

#[test]
fn test_encode_utf8() {
    let data = "Hello, 世界!".as_bytes();
    let result = encode_data(data, "utf8").unwrap();
    assert_eq!(result, "Hello, 世界!");
}

#[test]
fn test_decode_hex() {
    // Test basic hex
    let result = decode_data("48656c6c6f", "hex").unwrap();
    assert_eq!(result, b"Hello");

    // Test hex with spaces
    let result = decode_data("48 65 6c 6c 6f", "hex").unwrap();
    assert_eq!(result, b"Hello");

    // Test uppercase hex
    let result = decode_data("48656C6C6F", "hex").unwrap();
    assert_eq!(result, b"Hello");
}

#[test]
fn test_encode_hex() {
    let data = b"Hello";
    let result = encode_data(data, "hex").unwrap();
    assert_eq!(result, "48 65 6c 6c 6f");
}

#[test]
fn test_decode_hex_invalid() {
    // Odd length
    assert!(decode_data("48656c6c6", "hex").is_err());

    // Invalid characters
    assert!(decode_data("48656cXY", "hex").is_err());
}

#[test]
fn test_decode_base64() {
    let result = decode_data("SGVsbG8gV29ybGQ=", "base64").unwrap();
    assert_eq!(result, b"Hello World");

    // Test without padding
    let result = decode_data("SGVsbG8gV29ybGQ", "base64").unwrap();
    assert_eq!(result, b"Hello World");
}

#[test]
fn test_encode_base64() {
    let data = b"Hello World";
    let result = encode_data(data, "base64").unwrap();
    assert_eq!(result, "SGVsbG8gV29ybGQ=");
}

#[test]
fn test_decode_base64_invalid() {
    assert!(decode_data("SGVsbG8gV29ybGQ===", "base64").is_err());
    assert!(decode_data("Invalid@Base64", "base64").is_err());
}

#[test]
fn test_unsupported_encoding() {
    assert!(decode_data("test", "unknown").is_err());
    assert!(encode_data(b"test", "unknown").is_err());
}

#[test]
fn test_encode_utf8_invalid() {
    // Invalid UTF-8 sequence
    let invalid_utf8 = vec![0xFF, 0xFE, 0xFD];
    assert!(encode_data(&invalid_utf8, "utf8").is_err());
}

#[test]
fn test_roundtrip_encodings() {
    let test_data = b"Hello, World! 123 \x00\xFF";

    // Test hex roundtrip
    let hex_encoded = encode_data(test_data, "hex").unwrap();
    let hex_decoded = decode_data(&hex_encoded, "hex").unwrap();
    assert_eq!(test_data, hex_decoded.as_slice());

    // Test base64 roundtrip
    let b64_encoded = encode_data(test_data, "base64").unwrap();
    let b64_decoded = decode_data(&b64_encoded, "base64").unwrap();
    assert_eq!(test_data, b64_decoded.as_slice());
}

#[test]
fn types_encoding_names_ignore_case() {
    assert_eq!(decode_data("Hi", "UTF-8").unwrap(), b"Hi");
    assert_eq!(encode_data(b"Hi", "HEX").unwrap(), "48 69");
    assert_eq!(encode_data(b"Hi", "Base64").unwrap(), "SGk=");
}

#[test]
fn types_error_messages() {
    assert_eq!(
        decode_data("abc", "hex").unwrap_err(),
        "Hex decoding error: Odd number of digits"
    );
    assert_eq!(
        decode_data("zz", "hex").unwrap_err(),
        "Hex decoding error: Invalid character 'z' at position 0"
    );
    assert_eq!(decode_data("x", "ebcdic").unwrap_err(), "Unsupported encoding: ebcdic");
    assert_eq!(encode_data(b"x", "ebcdic").unwrap_err(), "Unsupported encoding: ebcdic");
    assert_eq!(
        encode_data(&[0xC3], "utf8").unwrap_err(),
        "UTF-8 encoding error: incomplete utf-8 byte sequence from index 0"
    );
    assert_eq!(
        encode_data(&[0x41, 0xFF], "utf8").unwrap_err(),
        "UTF-8 encoding error: invalid utf-8 sequence of 1 bytes from index 1"
    );
}

#[test]
fn types_base64_url_safe_fallback() {
    // '-' and '_' only belong to the URL-safe alphabet.
    assert_eq!(decode_data("-_8", "base64").unwrap(), vec![0xFB, 0xFF]);
    assert_eq!(
        decode_data("a", "base64").unwrap_err(),
        "Base64 decoding error: Invalid input length: 1"
    );
}

#[test]
fn types_empty_data() {
    assert_eq!(encode_data(b"", "hex").unwrap(), "");
    assert_eq!(decode_data("", "hex").unwrap(), Vec::<u8>::new());
    assert_eq!(encode_data(b"", "base64").unwrap(), "");
}

#[test]
fn types_open_args_to_settings() {
    let args = OpenArgs {
        port: "COM7".to_string(),
        baud_rate: 57600,
        data_bits: default_data_bits(),
        stop_bits: default_stop_bits(),
        parity: default_parity(),
        flow_control: default_flow_control(),
    };
    let c = ConnectionConfig::from(args);
    assert_eq!(c.port, "COM7");
    assert_eq!(c.baud_rate, 57600);
    assert_eq!(c.data_bits, DataBits::Eight);
    assert_eq!(c.stop_bits, StopBits::One);
    assert_eq!(c.parity, Parity::NoParity);
    assert_eq!(c.flow_control, FlowControl::NoFlowControl);
    let odd = OpenArgs {
        port: "COM8".to_string(),
        baud_rate: 9600,
        data_bits: "5".to_string(),
        stop_bits: "2".to_string(),
        parity: "ODD".to_string(),
        flow_control: "Hardware".to_string(),
    };
    let c = ConnectionConfig::from_open_args(odd);
    assert_eq!(c.data_bits, DataBits::Five);
    assert_eq!(c.stop_bits, StopBits::Two);
    assert_eq!(c.parity, Parity::Odd);
    assert_eq!(c.flow_control, FlowControl::Hardware);
    let unknown = OpenArgs {
        port: "COM9".to_string(),
        baud_rate: 9600,
        data_bits: "9".to_string(),
        stop_bits: "1.5".to_string(),
        parity: "mark".to_string(),
        flow_control: "xon".to_string(),
    };
    let c = ConnectionConfig::from_open_args(unknown);
    assert_eq!(c.data_bits, DataBits::Eight);
    assert_eq!(c.stop_bits, StopBits::One);
    assert_eq!(c.parity, Parity::NoParity);
    assert_eq!(c.flow_control, FlowControl::NoFlowControl);
    assert_eq!(default_encoding(), "utf8");
    assert_eq!(default_max_bytes(), 1024);
}
