//! Session management: serial sessions and the manager that tracks them.

pub mod manager;
pub mod session;

pub use session::{SerialSession, SessionConfig, SessionState};
pub use manager::SessionManager;
