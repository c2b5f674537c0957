//! The serial tools offered to MCP clients: their arguments and responses,
//! data encodings, and the texts the tools answer with.

pub mod serial_handler;
pub mod types;
