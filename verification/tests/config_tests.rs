use serial_mcp_rs::config::{Args, Config};
use serial_mcp_rs::error::SerialError;

#[test]
fn test_default_config() {
    let config = Config::default();
    assert!(config.validate().is_ok());
    assert_eq!(config.server.max_connections, 10);
    assert_eq!(config.serial.default_baud_rate, 115200);
}

fn args() -> Args {
    Args {
        config: None,
        log_level: "debug".to_string(),
        log_file: None,
        max_connections: 20,
        connection_timeout: 45,
        default_baud_rate: 9600,
        default_timeout_ms: 500,
        max_buffer_size: 4096,
        retry_count: 5,
        auto_discovery: false,
        allow_port_sharing: true,
        restrict_ports: true,
        generate_config: false,
        validate_config: false,
        show_config: false,
    }
}

fn invalid_config_message(c: &Config) -> String {
    match c.validate() {
        Err(SerialError::InvalidConfig(m)) => m,
        _ => panic!("expected InvalidConfig"),
    }
}

#[test]
fn config_merge_args_overrides() {
    let mut config = Config::default();
    config.merge_args(&args());
    assert_eq!(config.server.max_connections, 20);
    assert_eq!(config.server.connection_timeout_seconds, 45);
    assert_eq!(config.serial.default_baud_rate, 9600);
    assert_eq!(config.serial.default_timeout_ms, 500);
    assert_eq!(config.serial.max_buffer_size, 4096);
    assert_eq!(config.serial.retry_count, 5);
    assert!(!config.serial.auto_discovery);
    assert!(config.serial.allow_port_sharing);
    assert!(config.security.restrict_ports);
    assert_eq!(config.logging.level, "debug");
    let mut with_file = args();
    with_file.log_file = Some(std::path::PathBuf::from("/var/log/serial.log"));
    let mut other = Config::default();
    other.merge_args(&with_file);
    assert_eq!(other.logging.file, Some(std::path::PathBuf::from("/var/log/serial.log")));
    // Settings the arguments do not name are kept.
    assert_eq!(config.serial.default_data_bits, 8);
    assert!(config.validate().is_ok());
}

#[test]
fn config_validation_failures() {
    let mut c = Config::default();
    c.server.max_connections = 0;
    assert_eq!(invalid_config_message(&c), "Invalid value for server.max_connections: 0");

    let mut c = Config::default();
    c.server.max_connections = 1001;
    assert_eq!(
        invalid_config_message(&c),
        "Value out of range for server.max_connections: 1001 (range: 1-1000)"
    );

    let mut c = Config::default();
    c.serial.default_baud_rate = 0;
    assert_eq!(invalid_config_message(&c), "Invalid value for serial.default_baud_rate: 0");

    let mut c = Config::default();
    c.serial.default_baud_rate = 12345;
    assert_eq!(invalid_config_message(&c), "Invalid value for serial.default_baud_rate: 12345");

    let mut c = Config::default();
    c.serial.max_buffer_size = 0;
    assert_eq!(invalid_config_message(&c), "Invalid value for serial.max_buffer_size: 0");

    let mut c = Config::default();
    c.serial.max_buffer_size = 1048577;
    assert_eq!(
        invalid_config_message(&c),
        "Value out of range for serial.max_buffer_size: 1048577 (range: 1-1048576)"
    );

    let mut c = Config::default();
    c.logging.level = "verbose".to_string();
    assert_eq!(invalid_config_message(&c), "Invalid value for logging.level: verbose");

    let mut c = Config::default();
    c.server.max_connections = 1000;
    c.serial.max_buffer_size = 1048576;
    assert!(c.validate().is_ok());
}
