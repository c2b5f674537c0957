//! Configuration of the serial MCP server: command-line arguments, the
//! configuration sections with their defaults, merging and validation.

use std::path::PathBuf;
use vstd::prelude::*;
use crate::error::{ConfigError, SerialError};
use crate::text::{chars_equal, chars_of, decimal, owned, usize_to_string, u64_to_string};

verus! {

/// `std::path::PathBuf`, a file system path carried through unchanged.
#[verifier::external_type_specification]
#[verifier::external_body]
pub struct ExPathBuf(PathBuf);

/// `Option<PathBuf>::clone`: an equal path.
#[verifier::external_body]
fn clone_path(p: &Option<PathBuf>) -> (r: Option<PathBuf>)
    ensures
        r == *p,
{
    p.clone()
}

/// Command line arguments.
#[derive(Debug)]
pub struct Args {
    /// Path to configuration file
    pub config: Option<PathBuf>,
    /// Log level (error, warn, info, debug, trace)
    pub log_level: String,
    /// Log file path
    pub log_file: Option<PathBuf>,
    /// Maximum number of concurrent connections
    pub max_connections: usize,
    /// Connection timeout in seconds
    pub connection_timeout: u64,
    /// Default baud rate for serial connections
    pub default_baud_rate: u32,
    /// Default timeout for operations in milliseconds
    pub default_timeout_ms: u64,
    /// Maximum buffer size in bytes
    pub max_buffer_size: usize,
    /// Connection retry count
    pub retry_count: u32,
    /// Enable auto-discovery of serial ports
    pub auto_discovery: bool,
    /// Allow multiple connections to the same port
    pub allow_port_sharing: bool,
    /// Restrict port access to specific patterns
    pub restrict_ports: bool,
    /// Generate default configuration file
    pub generate_config: bool,
    /// Validate configuration and exit
    pub validate_config: bool,
    /// Show current configuration and exit
    pub show_config: bool,
}

/// Main configuration structure.
#[derive(Debug, Clone)]
pub struct Config {
    pub server: ServerConfig,
    pub serial: SerialConfig,
    pub security: SecurityConfig,
    pub logging: LoggingConfig,
}

/// Server section.
#[derive(Debug, Clone)]
pub struct ServerConfig {
    pub max_connections: usize,
    pub connection_timeout_seconds: u64,
    pub worker_threads: Option<usize>,
    pub enable_metrics: bool,
    pub metrics_interval_seconds: u64,
}

/// Serial section.
#[derive(Debug, Clone)]
pub struct SerialConfig {
    pub default_baud_rate: u32,
    pub default_data_bits: u8,
    pub default_stop_bits: String,
    pub default_parity: String,
    pub default_flow_control: String,
    pub default_timeout_ms: u64,
    pub max_buffer_size: usize,
    pub retry_count: u32,
    pub retry_delay_ms: u64,
    pub auto_discovery: bool,
    pub discovery_interval_seconds: u64,
    pub allow_port_sharing: bool,
    pub default_line_ending: String,
}

/// Security section.
#[derive(Debug, Clone)]
pub struct SecurityConfig {
    pub restrict_ports: bool,
    pub allowed_ports: Vec<String>,
    pub blocked_ports: Vec<String>,
    pub max_data_size: usize,
    pub rate_limit_enabled: bool,
    pub rate_limit_requests_per_second: u32,
    pub enable_authentication: bool,
    pub allowed_clients: Vec<String>,
}

/// Logging section.
#[derive(Debug, Clone)]
pub struct LoggingConfig {
    pub level: String,
    pub file: Option<PathBuf>,
    pub format: String,
    pub timestamp_format: String,
    pub include_location: bool,
    pub include_thread_names: bool,
    pub rotate_logs: bool,
    pub max_log_files: usize,
    pub max_log_size_mb: usize,
}

/// The default server section.
pub open spec fn is_default_server(s: ServerConfig) -> bool {
    &&& s.max_connections == 10
    &&& s.connection_timeout_seconds == 30
    &&& s.worker_threads is None
    &&& !s.enable_metrics
    &&& s.metrics_interval_seconds == 60
}

/// The default serial section.
pub open spec fn is_default_serial(s: SerialConfig) -> bool {
    &&& s.default_baud_rate == 115200
    &&& s.default_data_bits == 8
    &&& s.default_stop_bits@ == "One"@
    &&& s.default_parity@ == "None"@
    &&& s.default_flow_control@ == "None"@
    &&& s.default_timeout_ms == 1000
    &&& s.max_buffer_size == 8192
    &&& s.retry_count == 3
    &&& s.retry_delay_ms == 1000
    &&& !s.auto_discovery
    &&& s.discovery_interval_seconds == 5
    &&& !s.allow_port_sharing
    &&& s.default_line_ending@ == "\n"@
}

/// The default security section.
pub open spec fn is_default_security(s: SecurityConfig) -> bool {
    &&& !s.restrict_ports
    &&& s.allowed_ports@.len() == 0
    &&& s.blocked_ports@.len() == 0
    &&& s.max_data_size == 65536
    &&& !s.rate_limit_enabled
    &&& s.rate_limit_requests_per_second == 100
    &&& !s.enable_authentication
    &&& s.allowed_clients@.len() == 0
}

/// The default logging section.
pub open spec fn is_default_logging(s: LoggingConfig) -> bool {
    &&& s.level@ == "info"@
    &&& s.file is None
    &&& s.format@ == "text"@
    &&& s.timestamp_format@ == "rfc3339"@
    &&& !s.include_location
    &&& !s.include_thread_names
    &&& !s.rotate_logs
    &&& s.max_log_files == 10
    &&& s.max_log_size_mb == 10
}

/// The default configuration.
pub open spec fn is_default_config(c: Config) -> bool {
    &&& is_default_server(c.server)
    &&& is_default_serial(c.serial)
    &&& is_default_security(c.security)
    &&& is_default_logging(c.logging)
}

impl Default for ServerConfig {
    fn default() -> (r: Self)
        ensures
            is_default_server(r),
    {
        ServerConfig {
            max_connections: 10,
            connection_timeout_seconds: 30,
            worker_threads: None,
            enable_metrics: false,
            metrics_interval_seconds: 60,
        }
    }
}

impl Default for SerialConfig {
    fn default() -> (r: Self)
        ensures
            is_default_serial(r),
    {
        SerialConfig {
            default_baud_rate: 115200,
            default_data_bits: 8,
            default_stop_bits: owned("One"),
            default_parity: owned("None"),
            default_flow_control: owned("None"),
            default_timeout_ms: 1000,
            max_buffer_size: 8192,
            retry_count: 3,
            retry_delay_ms: 1000,
            auto_discovery: false,
            discovery_interval_seconds: 5,
            allow_port_sharing: false,
            default_line_ending: owned("\n"),
        }
    }
}

impl Default for SecurityConfig {
    fn default() -> (r: Self)
        ensures
            is_default_security(r),
    {
        SecurityConfig {
            restrict_ports: false,
            allowed_ports: Vec::new(),
            blocked_ports: Vec::new(),
            max_data_size: 65536,
            rate_limit_enabled: false,
            rate_limit_requests_per_second: 100,
            enable_authentication: false,
            allowed_clients: Vec::new(),
        }
    }
}

impl Default for LoggingConfig {
    fn default() -> (r: Self)
        ensures
            is_default_logging(r),
    {
        LoggingConfig {
            level: owned("info"),
            file: None,
            format: owned("text"),
            timestamp_format: owned("rfc3339"),
            include_location: false,
            include_thread_names: false,
            rotate_logs: false,
            max_log_files: 10,
            max_log_size_mb: 10,
        }
    }
}

impl Default for Config {
    fn default() -> (r: Self)
        ensures
            is_default_config(r),
    {
        Config {
            server: ServerConfig::default(),
            serial: SerialConfig::default(),
            security: SecurityConfig::default(),
            logging: LoggingConfig::default(),
        }
    }
}

/// The logging levels accepted.
pub open spec fn is_log_level(s: Seq<char>) -> bool {
    s == "error"@ || s == "warn"@ || s == "info"@ || s == "debug"@ || s == "trace"@
}

/// The largest buffer size accepted (1 MiB).
pub const MAX_BUFFER_SIZE: usize = 1048576;

/// The largest connection limit accepted.
pub const MAX_CONNECTIONS: usize = 1000;

/// The message of an invalid value.
pub open spec fn invalid_value_text(field: Seq<char>, value: Seq<char>) -> Seq<char> {
    "Invalid value for "@ + field + ": "@ + value
}

/// The message of a value out of range.
pub open spec fn out_of_range_text(field: Seq<char>, value: Seq<char>, min: Seq<char>, max: Seq<char>) -> Seq<char> {
    "Value out of range for "@ + field + ": "@ + value + " (range: "@ + min + "-"@ + max + ")"@
}

/// The message of the first rule a configuration breaks, if any.
pub open spec fn validation_failure(c: Config) -> Option<Seq<char>> {
    if c.server.max_connections == 0 {
        Some(invalid_value_text("server.max_connections"@, "0"@))
    } else if c.server.max_connections > MAX_CONNECTIONS {
        Some(
            out_of_range_text(
                "server.max_connections"@,
                decimal(c.server.max_connections as nat),
                "1"@,
                "1000"@,
            ),
        )
    } else if c.serial.default_baud_rate == 0 {
        Some(invalid_value_text("serial.default_baud_rate"@, "0"@))
    } else if !crate::utils::is_standard_baud_rate(c.serial.default_baud_rate) {
        Some(
            invalid_value_text(
                "serial.default_baud_rate"@,
                decimal(c.serial.default_baud_rate as nat),
            ),
        )
    } else if c.serial.max_buffer_size == 0 {
        Some(invalid_value_text("serial.max_buffer_size"@, "0"@))
    } else if c.serial.max_buffer_size > MAX_BUFFER_SIZE {
        Some(
            out_of_range_text(
                "serial.max_buffer_size"@,
                decimal(c.serial.max_buffer_size as nat),
                "1"@,
                "1048576"@,
            ),
        )
    } else if !is_log_level(c.logging.level@) {
        Some(invalid_value_text("logging.level"@, c.logging.level@))
    } else {
        None
    }
}

/// Each documented log level (error, warn, info, debug, trace) passes
/// validation when the other settings are within their limits.
pub proof fn lemma_documented_levels_valid(c: Config)
    requires
        1 <= c.server.max_connections <= 1000,
        crate::utils::is_standard_baud_rate(c.serial.default_baud_rate),
        1 <= c.serial.max_buffer_size <= 1048576,
        c.logging.level@ == "error"@ || c.logging.level@ == "warn"@ || c.logging.level@ == "info"@
            || c.logging.level@ == "debug"@ || c.logging.level@ == "trace"@,
    ensures
        validation_failure(c) is None,
{
}

/// The configuration after command-line arguments are merged into `c`.
pub open spec fn merged(c: Config, a: Args) -> Config {
    Config {
        server: ServerConfig {
            max_connections: a.max_connections,
            connection_timeout_seconds: a.connection_timeout,
            ..c.server
        },
        serial: SerialConfig {
            default_baud_rate: a.default_baud_rate,
            default_timeout_ms: a.default_timeout_ms,
            max_buffer_size: a.max_buffer_size,
            retry_count: a.retry_count,
            auto_discovery: a.auto_discovery,
            allow_port_sharing: a.allow_port_sharing,
            ..c.serial
        },
        security: SecurityConfig { restrict_ports: a.restrict_ports, ..c.security },
        logging: LoggingConfig { level: a.log_level, file: a.log_file, ..c.logging },
    }
}

fn invalid_value(field: &str, value: String) -> (r: SerialError)
    ensures
        r matches SerialError::InvalidConfig(m) && m@ == invalid_value_text(field@, value@),
{
    ConfigError::InvalidValue { field: owned(field), value }.into_serial_error()
}

fn out_of_range(field: &str, value: String, min: &str, max: &str) -> (r: SerialError)
    ensures
        r matches SerialError::InvalidConfig(m) && m@ == out_of_range_text(field@, value@, min@, max@),
{
    ConfigError::ValueOutOfRange {
        field: owned(field),
        value,
        min: owned(min),
        max: owned(max),
    }.into_serial_error()
}

impl Config {
    /// Merge command line arguments into configuration.
    pub fn merge_args(&mut self, args: &Args)
        ensures
            *final(self) == merged(*old(self), *args),
    {
        self.server.max_connections = args.max_connections;
        self.server.connection_timeout_seconds = args.connection_timeout;
        self.serial.default_baud_rate = args.default_baud_rate;
        self.serial.default_timeout_ms = args.default_timeout_ms;
        self.serial.max_buffer_size = args.max_buffer_size;
        self.serial.retry_count = args.retry_count;
        self.serial.auto_discovery = args.auto_discovery;
        self.serial.allow_port_sharing = args.allow_port_sharing;
        self.security.restrict_ports = args.restrict_ports;
        self.logging.level = args.log_level.clone();
        self.logging.file = clone_path(&args.log_file);
    }

    /// Validate configuration: the first rule broken is reported.
    pub fn validate(&self) -> (r: Result<(), SerialError>)
        ensures
            match validation_failure(*self) {
                None => r is Ok,
                Some(m) => r matches Err(SerialError::InvalidConfig(e)) && e@ == m,
            },
            // Every documented log level is accepted with valid other settings.
            1 <= self.server.max_connections <= 1000 && crate::utils::is_standard_baud_rate(self.serial.default_baud_rate)
                && 1 <= self.serial.max_buffer_size <= 1048576 && (self.logging.level@ == "error"@ || self.logging.level@
                == "warn"@ || self.logging.level@ == "info"@ || self.logging.level@ == "debug"@ || self.logging.level@
                == "trace"@) ==> r is Ok,
    {
        proof {
            if 1 <= self.server.max_connections <= 1000 && crate::utils::is_standard_baud_rate(
                self.serial.default_baud_rate,
            ) && 1 <= self.serial.max_buffer_size <= 1048576 && (self.logging.level@ == "error"@
                || self.logging.level@ == "warn"@ || self.logging.level@ == "info"@ || self.logging.level@ == "debug"@
                || self.logging.level@ == "trace"@) {
                lemma_documented_levels_valid(*self);
            }
        }
        if self.server.max_connections == 0 {
            return Err(invalid_value("server.max_connections", owned("0")));
        }
        if self.server.max_connections > MAX_CONNECTIONS {
            return Err(
                out_of_range(
                    "server.max_connections",
                    usize_to_string(self.server.max_connections),
                    "1",
                    "1000",
                ),
            );
        }
        if self.serial.default_baud_rate == 0 {
            return Err(invalid_value("serial.default_baud_rate", owned("0")));
        }
        if crate::utils::Validator::validate_baud_rate(self.serial.default_baud_rate).is_err() {
            return Err(
                invalid_value(
                    "serial.default_baud_rate",
                    u64_to_string(self.serial.default_baud_rate as u64),
                ),
            );
        }
        if self.serial.max_buffer_size == 0 {
            return Err(invalid_value("serial.max_buffer_size", owned("0")));
        }
        if self.serial.max_buffer_size > MAX_BUFFER_SIZE {
            return Err(
                out_of_range(
                    "serial.max_buffer_size",
                    usize_to_string(self.serial.max_buffer_size),
                    "1",
                    "1048576",
                ),
            );
        }
        let level = chars_of(self.logging.level.as_str());
        if !(chars_equal(&level, "error") || chars_equal(&level, "warn") || chars_equal(&level, "info")
            || chars_equal(&level, "debug") || chars_equal(&level, "trace")) {
            return Err(invalid_value("logging.level", self.logging.level.clone()));
        }
        Ok(())
    }
}

/// The default configuration passes validation.
pub proof fn lemma_default_config_is_valid(c: Config)
    requires
        is_default_config(c),
    ensures
        validation_failure(c) is None,
{
}

} // verus!
