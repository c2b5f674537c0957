use serial_mcp_rs::serial::connection::{
    check_baud_rate, connection_failed, reconfigure_outcome, default_data_bits, default_flow_control,
    default_parity, default_stop_bits,
};
use serial_mcp_rs::error::SerialError as E;
use serial_mcp_rs::serial::error::SerialError;
use serial_mcp_rs::serial::{
    ConnectionConfig, ConnectionManager, DataBits, FlowControl, FoundPort, Parity, PortInfo, PortKind,
    StopBits,
};

#[test]
fn test_connection_manager_new() {
    let manager: ConnectionManager<()> = ConnectionManager::new();
    assert_eq!(manager.len(), 0);
}

#[test]
fn test_connection_manager_close_invalid_id() {
    let mut manager: ConnectionManager<()> = ConnectionManager::new();
    let result = manager.close("invalid_id");
    assert!(result.is_err());

    match result {
        Err(SerialError::InvalidConnection(id)) => {
            assert_eq!(id, "invalid_id");
        }
        _ => panic!("Expected InvalidConnection error"),
    }
}

#[test]
fn test_connection_manager_get_invalid_id() {
    let manager: ConnectionManager<()> = ConnectionManager::new();
    let result = manager.get("invalid_id");
    assert!(result.is_err());
}

#[test]
fn test_invalid_baud_rate() {
    let config = ConnectionConfig {
        port: "COM1".to_string(),
        baud_rate: 0,
        data_bits: DataBits::Eight,
        stop_bits: StopBits::One,
        parity: Parity::NoParity,
        flow_control: FlowControl::NoFlowControl,
    };

    let result = check_baud_rate(config.baud_rate);

    assert!(result.is_err());
    match result {
        Err(SerialError::InvalidBaudRate(rate)) => {
            assert_eq!(rate, 0);
        }
        _ => panic!("Expected InvalidBaudRate error"),
    }
}

#[test]
fn test_error_display() {
    let err = SerialError::PortNotFound("COM99".to_string());
    assert_eq!(err.message(), "Port not found: COM99");

    let err = SerialError::ConnectionExists("COM1".to_string());
    assert_eq!(err.message(), "Connection already exists: COM1");

    let err = SerialError::InvalidBaudRate(999999999);
    assert_eq!(err.message(), "Invalid baud rate: 999999999");

    let err = SerialError::InvalidConnection("conn_123".to_string());
    assert_eq!(err.message(), "Invalid connection ID: conn_123");

    let err = SerialError::ReadTimeout;
    assert_eq!(err.message(), "Read timeout");

    let err = SerialError::ConnectionFailed("Test error".to_string());
    assert_eq!(err.message(), "Connection failed: Test error");

    let err = SerialError::InvalidConfig("Bad config".to_string());
    assert_eq!(err.message(), "Invalid configuration: Bad config");
}

#[test]
fn serial_manager_open_get_close() {
    let mut manager: ConnectionManager<u32> = ConnectionManager::new();
    let id = manager.open("id-1".to_string(), "COM1".to_string(), 7).unwrap();
    assert_eq!(id, "id-1");
    assert!(manager.port_in_use("COM1"));
    assert!(!manager.port_in_use("COM2"));
    assert_eq!(*manager.get("id-1").unwrap(), 7);
    // A second connection to the same port is refused and changes nothing.
    match manager.open("id-2".to_string(), "COM1".to_string(), 8) {
        Err(SerialError::ConnectionExists(p)) => assert_eq!(p, "COM1"),
        _ => panic!("expected ConnectionExists"),
    }
    assert_eq!(manager.len(), 1);
    manager.open("id-2".to_string(), "COM2".to_string(), 8).unwrap();
    assert_eq!(*manager.connection_at(1), 8);
    assert_eq!(manager.close("id-1").unwrap(), 7);
    assert_eq!(manager.len(), 1);
    assert!(!manager.port_in_use("COM1"));
    assert!(manager.get("id-1").is_err());
    // The port closed can be opened again.
    assert_eq!(manager.open("id-3".to_string(), "COM1".to_string(), 9).unwrap(), "id-3");
    assert_eq!(manager.len(), 2);
}

#[test]
fn serial_connection_settings() {
    let c = ConnectionConfig::from_params("COM4", 19200, 7, "TWO", "Even", "software").unwrap();
    assert_eq!(c.port, "COM4");
    assert_eq!(c.baud_rate, 19200);
    assert_eq!(c.data_bits, DataBits::Seven);
    assert_eq!(c.stop_bits, StopBits::Two);
    assert_eq!(c.parity, Parity::Even);
    assert_eq!(c.flow_control, FlowControl::Software);
    match ConnectionConfig::from_params("COM4", 19200, 9, "x", "y", "z") {
        Err(E::InvalidDataBits(9)) => {},
        _ => panic!("expected InvalidDataBits"),
    }
    match ConnectionConfig::from_params("COM4", 19200, 8, "1.5", "y", "z") {
        Err(E::InvalidStopBits(s)) => assert_eq!(s, "1.5"),
        _ => panic!("expected InvalidStopBits"),
    }
    match ConnectionConfig::from_params("COM4", 19200, 8, "1", "mark", "z") {
        Err(E::InvalidParity(s)) => assert_eq!(s, "mark"),
        _ => panic!("expected InvalidParity"),
    }
    match ConnectionConfig::from_params("COM4", 19200, 8, "1", "none", "xon") {
        Err(E::InvalidFlowControl(s)) => assert_eq!(s, "xon"),
        _ => panic!("expected InvalidFlowControl"),
    }
    assert_eq!(default_data_bits(), DataBits::Eight);
    assert_eq!(default_stop_bits(), StopBits::One);
    assert_eq!(default_parity(), Parity::NoParity);
    assert_eq!(default_flow_control(), FlowControl::NoFlowControl);
}

#[test]
fn serial_baud_checks_and_reconfigure() {
    assert!(check_baud_rate(1).is_ok());
    assert!(check_baud_rate(4_000_000).is_ok());
    match check_baud_rate(4_000_001) {
        Err(SerialError::InvalidBaudRate(b)) => assert_eq!(b, 4_000_001),
        _ => panic!("expected InvalidBaudRate"),
    }
    assert!(reconfigure_outcome(None).is_ok());
    match reconfigure_outcome(Some(0)) {
        Err(SerialError::InvalidBaudRate(0)) => {},
        _ => panic!("expected InvalidBaudRate"),
    }
    match reconfigure_outcome(Some(9600)) {
        Err(SerialError::InvalidConfig(m)) => assert_eq!(
            m,
            "Runtime reconfiguration not supported. Please close and reopen the connection."
        ),
        _ => panic!("expected InvalidConfig"),
    }
    match connection_failed(&SerialError::InvalidBaudRate(0)) {
        serial_mcp_rs::error::SerialError::ConnectionFailed(m) => assert_eq!(m, "Invalid baud rate: 0"),
        _ => panic!("expected ConnectionFailed"),
    }
}

#[test]
fn serial_port_descriptions() {
    let usb = PortInfo::describe(
        "/dev/ttyACM0",
        &PortKind::Usb { vid: 0x2341, pid: 0x43, manufacturer: None, product: Some("Uno".to_string()) },
    );
    assert_eq!(usb.name, "/dev/ttyACM0");
    assert_eq!(usb.description, "Unknown Uno");
    assert_eq!(usb.hardware_id.as_deref(), Some("USB VID:2341 PID:0043"));
    assert!(usb.available);
    let pci = PortInfo::describe("COM1", &PortKind::Pci);
    assert_eq!(pci.description, "PCI Serial Port");
    assert_eq!(pci.hardware_id.as_deref(), Some("PCI"));
    let bt = PortInfo::describe("rfcomm0", &PortKind::Bluetooth);
    assert_eq!(bt.description, "Bluetooth Serial Port");
    assert_eq!(bt.hardware_id.as_deref(), Some("Bluetooth"));
    let all = PortInfo::describe_all(&vec![FoundPort { name: "x".to_string(), kind: PortKind::Unknown }]);
    assert_eq!(all.len(), 1);
    assert_eq!(all[0].description, "Serial Port");
    assert!(all[0].hardware_id.is_none());
}

#[test]
fn serial_manager_default_is_empty() {
    let manager: ConnectionManager<()> = ConnectionManager::default();
    assert_eq!(manager.len(), 0);
    assert!(!manager.port_in_use("COM1"));
}
