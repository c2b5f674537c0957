use serial_mcp_rs::error::SerialError;
use serial_mcp_rs::utils::{
    BufferUtils, Elapsed, DataConverter, DataFormat, PortType, SessionIdGenerator, StringUtils, TimeUtils,
    Validator,
};

#[test]
fn test_data_converter_encode_decode() {
    let data = b"Hello, World!";

    // Test hex encoding/decoding
    let hex_encoded = DataConverter::encode(data, DataFormat::Hex).unwrap();
    let hex_decoded = DataConverter::decode(&hex_encoded, DataFormat::Hex).unwrap();
    assert_eq!(data, hex_decoded.as_slice());

    // Test base64 encoding/decoding
    let b64_encoded = DataConverter::encode(data, DataFormat::Base64).unwrap();
    let b64_decoded = DataConverter::decode(&b64_encoded, DataFormat::Base64).unwrap();
    assert_eq!(data, b64_decoded.as_slice());

    // Test text encoding/decoding
    let text_encoded = DataConverter::encode(data, DataFormat::Text).unwrap();
    let text_decoded = DataConverter::decode(&text_encoded, DataFormat::Text).unwrap();
    assert_eq!(data, text_decoded.as_slice());
}

#[test]
fn test_escape_unescape() {
    let original = "Hello\nWorld\r\tTest\\0\x01";
    let escaped = DataConverter::escape_string(original);
    let _unescaped = DataConverter::unescape_string(&escaped).unwrap();
    // The escape/unescape should be symmetric for most chars
    // but control chars like \x01 will be different
    let original_simple = "Hello\nWorld\r\tTest\\0";
    let escaped_simple = DataConverter::escape_string(original_simple);
    let unescaped_simple = DataConverter::unescape_string(&escaped_simple).unwrap();
    assert_eq!(original_simple, unescaped_simple);
}

#[test]
fn test_validator() {
    assert!(Validator::validate_baud_rate(115200).is_ok());
    assert!(Validator::validate_baud_rate(12345).is_err());

    assert!(Validator::validate_data_bits(8).is_ok());
    assert!(Validator::validate_data_bits(9).is_err());

    assert!(Validator::validate_parity("none").is_ok());
    assert!(Validator::validate_parity("invalid").is_err());
}

#[test]
fn test_buffer_utils() {
    let buffer = b"Hello,World,Test";
    let delimiter = b",";
    let parts = BufferUtils::split_by_delimiter(buffer, delimiter);
    assert_eq!(parts.len(), 3);
    assert_eq!(parts[0], b"Hello");
    assert_eq!(parts[1], b"World");
    assert_eq!(parts[2], b"Test");
}

#[test]
fn test_checksum() {
    let data = b"Hello";
    let sum_checksum = BufferUtils::checksum_sum(data);
    let xor_checksum = BufferUtils::checksum_xor(data);
    let crc8_checksum = BufferUtils::crc8(data);

    assert_eq!(sum_checksum, 244); // 'H' + 'e' + 'l' + 'l' + 'o' = 500 % 256 = 244
    assert_ne!(xor_checksum, 0);
    assert_ne!(crc8_checksum, 0);
}

#[test]
fn test_string_utils() {
    assert_eq!(StringUtils::truncate("Hello, World!", 10), "Hello, ...");
    assert_eq!(StringUtils::truncate("Hi", 10), "Hi");

    let csv = "a, b,  c  , d,";
    let parsed = StringUtils::parse_csv(csv);
    assert_eq!(parsed, vec!["a", "b", "c", "d"]);
}

#[test]
fn utils_port_type_detection() {
    assert_eq!(PortType::from_port_info("/dev/ttyUSB0", None), PortType::UsbSerial);
    assert_eq!(PortType::from_port_info("COM3", Some("USB Serial Device")), PortType::UsbSerial);
    assert_eq!(PortType::from_port_info("rfcomm0", Some("Bluetooth link")), PortType::Bluetooth);
    assert_eq!(PortType::from_port_info("/dev/ttyS0", None), PortType::Native);
    assert_eq!(PortType::from_port_info("COM9", Some("Virtual port")), PortType::Virtual);
    assert_eq!(PortType::from_port_info("COM1", Some("Loopback")), PortType::Virtual);
    assert_eq!(PortType::from_port_info("COM1", None), PortType::Unknown);
    assert_eq!(PortType::UsbSerial.display_name(), "USB Serial");
    assert_eq!(PortType::Unknown.display_name(), "Unknown");
}

#[test]
fn utils_data_format_names() {
    assert_eq!(DataFormat::from_str("UTF8").unwrap(), DataFormat::Text);
    assert_eq!(DataFormat::from_str("hexadecimal").unwrap(), DataFormat::Hex);
    assert_eq!(DataFormat::from_str("b64").unwrap(), DataFormat::Base64);
    assert_eq!(DataFormat::from_str("raw").unwrap(), DataFormat::Binary);
    match DataFormat::from_str("morse") {
        Err(SerialError::InvalidConfig(m)) => assert_eq!(m, "Unknown data format: morse"),
        _ => panic!("expected InvalidConfig"),
    }
    assert_eq!(DataFormat::Base64.display_name(), "base64");
}

#[test]
fn utils_converter_formats() {
    assert_eq!(DataConverter::encode(&[1, 2, 255], DataFormat::Hex).unwrap(), "0102ff");
    assert_eq!(DataConverter::encode(&[1, 2, 255], DataFormat::Binary).unwrap(), "[1, 2, 255]");
    assert_eq!(DataConverter::encode(&[], DataFormat::Binary).unwrap(), "[]");
    match DataConverter::encode(&[0xFF], DataFormat::Text) {
        Err(SerialError::EncodingError(m)) => {
            assert_eq!(m, "UTF-8 encoding failed: invalid utf-8 sequence of 1 bytes from index 0")
        },
        _ => panic!("expected EncodingError"),
    }
    match DataConverter::decode("abc", DataFormat::Hex) {
        Err(SerialError::EncodingError(m)) => assert_eq!(m, "Hex decoding failed: Odd number of digits"),
        _ => panic!("expected EncodingError"),
    }
    match DataConverter::decode("AAA", DataFormat::Binary) {
        Err(SerialError::NotImplemented(m)) => assert_eq!(m, "Binary format decoding"),
        _ => panic!("expected NotImplemented"),
    }
}

#[test]
fn utils_escape_rules() {
    assert_eq!(DataConverter::escape_string("a\u{1}\0\\"), "a\\x01\\0\\\\");
    match DataConverter::unescape_string("\\x41\\+f") {
        Err(SerialError::EncodingError(m)) => assert_eq!(m, "Unknown escape sequence: \\+"),
        _ => panic!("expected EncodingError"),
    }
}

#[test]
fn utils_unescape_errors() {
    assert_eq!(DataConverter::unescape_string("\\x41").unwrap(), "A");
    assert_eq!(DataConverter::unescape_string("\\x+a").unwrap(), "\n");
    match DataConverter::unescape_string("\\q") {
        Err(SerialError::EncodingError(m)) => assert_eq!(m, "Unknown escape sequence: \\q"),
        _ => panic!("expected EncodingError"),
    }
    match DataConverter::unescape_string("ab\\") {
        Err(SerialError::EncodingError(m)) => assert_eq!(m, "Incomplete escape sequence"),
        _ => panic!("expected EncodingError"),
    }
    match DataConverter::unescape_string("\\x4") {
        Err(SerialError::EncodingError(m)) => assert_eq!(m, "Incomplete hex escape"),
        _ => panic!("expected EncodingError"),
    }
    match DataConverter::unescape_string("\\xzz") {
        Err(SerialError::EncodingError(m)) => assert_eq!(m, "Invalid hex escape: \\xzz"),
        _ => panic!("expected EncodingError"),
    }
}

#[test]
fn utils_escape_then_unescape_gives_text_back() {
    for s in ["", "plain", "tab\tand\nnewline\r", "back\\slash\0", "\u{7f}\u{1b}é"] {
        let e = DataConverter::escape_string(s);
        assert_eq!(DataConverter::unescape_string(&e).unwrap(), s);
    }
}

#[test]
fn utils_validator_edges() {
    assert!(Validator::validate_baud_rate(300).is_ok());
    assert!(Validator::validate_baud_rate(921600).is_ok());
    assert!(Validator::validate_baud_rate(0).is_err());
    assert!(Validator::validate_data_bits(5).is_ok());
    assert!(Validator::validate_data_bits(4).is_err());
    assert!(Validator::validate_stop_bits("TWO").is_ok());
    assert!(Validator::validate_stop_bits("1.5").is_err());
    assert!(Validator::validate_flow_control("Hardware").is_ok());
    assert!(Validator::validate_flow_control("xon").is_err());
    assert!(Validator::validate_port_name("COM1").is_ok());
    match Validator::validate_port_name("") {
        Err(SerialError::InvalidConfig(m)) => assert_eq!(m, "Port name cannot be empty"),
        _ => panic!("expected InvalidConfig"),
    }
    let long = "x".repeat(256);
    match Validator::validate_port_name(&long) {
        Err(SerialError::InvalidConfig(m)) => assert_eq!(m, "Port name too long"),
        _ => panic!("expected InvalidConfig"),
    }
    assert!(Validator::validate_port_name(&"x".repeat(255)).is_ok());
}

#[test]
fn utils_split_and_find() {
    assert_eq!(BufferUtils::find_pattern(b"abcabc", b"ca"), Some(2));
    assert_eq!(BufferUtils::find_pattern(b"abc", b""), None);
    assert_eq!(BufferUtils::find_pattern(b"ab", b"abc"), None);
    let parts = BufferUtils::split_by_delimiter(b"a,,b,", b",");
    assert_eq!(parts, vec![b"a".to_vec(), b"".to_vec(), b"b".to_vec()]);
    let whole = BufferUtils::split_by_delimiter(b"abc", b"");
    assert_eq!(whole, vec![b"abc".to_vec()]);
    // Joining the pieces with the delimiter gives the buffer back when it
    // does not end with the delimiter.
    let buf = b"x--y----z";
    let pieces = BufferUtils::split_by_delimiter(buf, b"--");
    assert_eq!(pieces.join(&b"--"[..]), buf.to_vec());
}

#[test]
fn utils_checksums_exact() {
    assert_eq!(BufferUtils::checksum_sum(&[200, 100]), 44);
    assert_eq!(BufferUtils::checksum_xor(&[0x0F, 0xF0]), 0xFF);
    assert_eq!(BufferUtils::crc8(&[]), 0);
    assert_eq!(BufferUtils::crc8(&[0x01]), 0x07);
    assert_eq!(BufferUtils::crc8(b"123456789"), 0xF4);
}

#[test]
fn utils_durations() {
    assert_eq!(TimeUtils::format_duration_parts(3725, 0), "1h 2m 5s");
    assert_eq!(TimeUtils::format_duration_parts(125, 7), "2m 5s");
    assert_eq!(TimeUtils::format_duration_parts(5, 7), "5.007s");
    assert_eq!(TimeUtils::format_duration_parts(0, 42), "42ms");
    assert_eq!(TimeUtils::format_duration(Elapsed { secs: 1, nanos: 500_999_999 }), "1.500s");
    assert_eq!(TimeUtils::format_duration(Elapsed { secs: 7322, nanos: 0 }), "2h 2m 2s");
    assert_eq!(TimeUtils::format_duration(Elapsed { secs: 0, nanos: 999_999 }), "0ms");
    assert!(TimeUtils::now_millis() / 1000 >= TimeUtils::now_seconds() - 1);
}

#[test]
fn utils_identifiers() {
    assert_eq!(
        SessionIdGenerator::session_id_from_uuid("123e4567-e89b-42d3-a456-426614174000"),
        "serial_session_123e4567e89b42d3"
    );
    let id = SessionIdGenerator::generate();
    assert!(id.starts_with("serial_session_"));
    assert_eq!(id.len(), "serial_session_".len() + 16);
    assert_eq!(SessionIdGenerator::connection_id_at("AB", 17), "conn_17_00000083");
    assert!(SessionIdGenerator::generate_connection_id("AB").ends_with("_00000083"));
}

#[test]
fn utils_strings() {
    assert_eq!(StringUtils::truncate("abcdef", 3), "...");
    assert_eq!(StringUtils::truncate("abcdef", 6), "abcdef");
    assert_eq!(StringUtils::sanitize("a\u{7}b\nc\td"), "a?b\nc\td");
    assert_eq!(StringUtils::parse_csv(" , ,"), Vec::<String>::new());
}

#[test]
fn utils_crc8_laws_on_values() {
    let d = b"serial frame";
    let mut framed = d.to_vec();
    framed.push(BufferUtils::crc8(d));
    assert_eq!(BufferUtils::crc8(&framed), 0);
    let a = b"abcd";
    let b = b"wxyz";
    let x: Vec<u8> = a.iter().zip(b.iter()).map(|(p, q)| p ^ q).collect();
    assert_eq!(BufferUtils::crc8(&x), BufferUtils::crc8(a) ^ BufferUtils::crc8(b));
}

#[test]
fn utils_split_trailing_field() {
    assert_eq!(BufferUtils::split_by_delimiter(b"", b","), Vec::<Vec<u8>>::new());
    assert_eq!(BufferUtils::split_by_delimiter(b"a,", b","), vec![b"a".to_vec()]);
    assert_eq!(
        BufferUtils::split_by_delimiter(b"a,,b", b","),
        vec![b"a".to_vec(), b"".to_vec(), b"b".to_vec()]
    );
    assert_eq!(BufferUtils::split_by_delimiter(b"a,b", b"").len(), 1);
}
