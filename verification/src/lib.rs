//! Serial port communication library: configuration, validation, data
//! encoding, buffer utilities and session bookkeeping for a serial MCP server.

pub mod text;
pub mod error;
pub mod codec;
pub mod utils;
pub mod config;
pub mod serial;
pub mod registry;
pub mod session;
pub mod tools;

pub use config::{Args, Config};
pub use error::SerialError;
pub use serial::{ConnectionManager, PortInfo};
pub use session::{SerialSession, SessionManager, SessionState};
pub use utils::{DataConverter, DataFormat, PortType};
