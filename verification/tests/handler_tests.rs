use serial_mcp_rs::serial::error::SerialError;
use serial_mcp_rs::serial::{FoundPort, PortInfo, PortKind};
use serial_mcp_rs::tools::serial_handler::{
    close_failed_message, closed_message, decode_data, encode_data, list_ports_failed_message,
    open_failed_message, opened_message, ports_message, read_reply, server_instructions,
    unknown_connection_message, write_payload, write_reply,
};

#[test]
fn handler_decode_hex_pairs() {
    assert_eq!(decode_data("48 65 6c", "hex").unwrap(), b"Hel");
    assert_eq!(decode_data("  4865 \t", "hex").unwrap(), b"He");
    // A pair may be '+' and one digit, as u8::from_str_radix reads it.
    assert_eq!(decode_data("+a0F", "hex").unwrap(), vec![10, 15]);
    assert_eq!(decode_data("", "hex").unwrap(), Vec::<u8>::new());
}

#[test]
fn handler_decode_hex_errors() {
    assert_eq!(decode_data("486", "hex").unwrap_err(), "Hex string must have even length");
    assert_eq!(decode_data("48zz", "hex").unwrap_err(), "Invalid hex character at position 2");
    assert_eq!(decode_data("-1", "hex").unwrap_err(), "Invalid hex character at position 0");
    assert_eq!(decode_data("éa0", "hex").unwrap_err(), "Invalid hex character at position 0");
}

#[test]
fn handler_decode_names_are_exact() {
    assert_eq!(decode_data("ab", "utf8").unwrap(), b"ab");
    assert_eq!(decode_data("ab", "utf-8").unwrap(), b"ab");
    assert_eq!(decode_data("ab", "HEX").unwrap_err(), "Unsupported encoding: HEX");
    assert_eq!(encode_data(b"ab", "UTF8").unwrap_err(), "Unsupported encoding: UTF8");
}

#[test]
fn handler_decode_base64() {
    assert_eq!(decode_data(" SGVsbG8= \n", "base64").unwrap(), b"Hello");
    assert_eq!(
        decode_data("SGVsbG8", "base64").unwrap_err(),
        "Invalid base64: Invalid padding"
    );
    assert_eq!(
        decode_data("SG@s", "base64").unwrap_err(),
        "Invalid base64: Invalid symbol 64, offset 2."
    );
}

#[test]
fn handler_encode_all() {
    assert_eq!(encode_data(&[0x00, 0xff, 0x10], "hex").unwrap(), "00 ff 10");
    assert_eq!(encode_data(&[], "hex").unwrap(), "");
    assert_eq!(encode_data(b"Hello", "base64").unwrap(), "SGVsbG8=");
    assert_eq!(encode_data("é".as_bytes(), "utf8").unwrap(), "é");
    assert_eq!(
        encode_data(&[0xFF], "utf-8").unwrap_err(),
        "Invalid UTF-8: invalid utf-8 sequence of 1 bytes from index 0"
    );
}

#[test]
fn handler_roundtrips() {
    let data: Vec<u8> = (0u8..=255).collect();
    let hex = encode_data(&data, "hex").unwrap();
    assert_eq!(decode_data(&hex, "hex").unwrap(), data);
    let b64 = encode_data(&data, "base64").unwrap();
    assert_eq!(decode_data(&b64, "base64").unwrap(), data);
    let text = encode_data("a→b".as_bytes(), "utf8").unwrap();
    assert_eq!(decode_data(&text, "utf8").unwrap(), "a→b".as_bytes());
}

#[test]
fn handler_ports_message() {
    assert_eq!(ports_message(&vec![]), "No serial ports found on the system");
    let found = vec![
        FoundPort {
            name: "/dev/ttyUSB0".to_string(),
            kind: PortKind::Usb {
                vid: 0x10c4,
                pid: 0xea60,
                manufacturer: Some("Silicon Labs".to_string()),
                product: None,
            },
        },
        FoundPort { name: "/dev/ttyS0".to_string(), kind: PortKind::Unknown },
    ];
    let ports = PortInfo::describe_all(&found);
    assert_eq!(
        ports_message(&ports),
        "Found 2 serial ports:\n- /dev/ttyUSB0: Silicon Labs USB Serial Device (USB VID:10C4 PID:EA60)\n- /dev/ttyS0: Serial Port"
    );
    assert_eq!(list_ports_failed_message("denied"), "Failed to list ports: denied");
}

#[test]
fn handler_open_close_messages() {
    assert_eq!(
        opened_message("abc", "COM3", 9600),
        "Serial connection opened\nConnection ID: abc\nPort: COM3\nBaud rate: 9600"
    );
    assert_eq!(
        open_failed_message("COM3", &SerialError::ConnectionExists("COM3".to_string())),
        "Error: Failed to open port COM3 - Connection already exists: COM3"
    );
    assert_eq!(closed_message("abc"), "Serial connection closed\nConnection ID: abc");
    assert_eq!(
        close_failed_message("abc", &SerialError::InvalidConnection("abc".to_string())),
        "Error: Failed to close connection abc - Invalid connection ID: abc"
    );
    assert_eq!(unknown_connection_message("zz"), "Error: Connection ID zz not found");
}

#[test]
fn handler_write_replies() {
    assert_eq!(write_payload("4142", "hex").unwrap(), b"AB");
    assert_eq!(
        write_payload("414", "hex").unwrap_err(),
        "Error: Data decoding failed - Hex string must have even length"
    );
    assert_eq!(
        write_reply("c1", "say \"hi\"", Ok(8)).unwrap(),
        "Data sent successfully\nConnection ID: c1\nBytes written: 8\nData: \"say \\\"hi\\\"\""
    );
    assert_eq!(
        write_reply("c1", "x", Err(SerialError::WriteTimeout)).unwrap_err(),
        "Error: Data sending failed - Write timeout"
    );
}

#[test]
fn handler_read_replies() {
    assert_eq!(
        read_reply("c1", None, "utf8", Ok(b"hi\n".to_vec())).unwrap(),
        "Data read successfully\nConnection ID: c1\nBytes read: 3\nData: \"hi\\n\""
    );
    assert_eq!(
        read_reply("c1", None, "hex", Ok(vec![1, 2])).unwrap(),
        "Data read successfully\nConnection ID: c1\nBytes read: 2\nData: \"01 02\""
    );
    assert_eq!(
        read_reply("c1", None, "utf8", Ok(vec![])).unwrap(),
        "Read timeout\nConnection ID: c1\nTimeout: 1000ms\nBytes read: 0"
    );
    assert_eq!(
        read_reply("c1", Some(250), "utf8", Err(SerialError::ReadTimeout)).unwrap(),
        "Read timeout\nConnection ID: c1\nTimeout: 250ms\nBytes read: 0"
    );
    assert_eq!(
        read_reply("c1", Some(250), "utf8", Err(SerialError::PortNotFound("COM9".to_string())))
            .unwrap_err(),
        "Error: Data reading failed - Port not found: COM9"
    );
    assert_eq!(
        read_reply("c1", None, "ascii", Ok(vec![65])).unwrap_err(),
        "Error: Data encoding failed - Unsupported encoding: ascii"
    );
}

#[test]
fn handler_instructions() {
    assert!(server_instructions().starts_with("A serial port communication MCP server."));
}
