use serial_mcp_rs::config::Config;
use serial_mcp_rs::error::SerialError;
use serial_mcp_rs::session::manager::connect_failure;
use serial_mcp_rs::session::session::{seconds_between, SessionStats, Timestamp};
use serial_mcp_rs::session::{SerialSession, SessionConfig, SessionManager, SessionState};

#[test]
fn session_test_session_creation() {
    let config = SessionConfig {
        port_name: "/dev/ttyUSB0".to_string(),
        ..Default::default()
    };

    let session: SerialSession<()> = SerialSession::new(config);

    assert!(!session.id().is_empty());
    assert_eq!(session.port_name(), "/dev/ttyUSB0");
    assert!(matches!(session.state(), SessionState::Creating));
    assert!(!session.is_active());
    assert!(!session.has_connection());
}

#[test]
fn test_session_state_transitions() {
    let config = SessionConfig::default();
    let mut session: SerialSession<()> = SerialSession::new(config);

    session.set_state(SessionState::Active);
    assert!(session.is_active());

    session.set_error("Test error".to_string());
    assert!(matches!(session.state(), SessionState::Error(_)));
    assert!(!session.is_active());

    session.close();
    assert!(matches!(session.state(), SessionState::Closed));
}

#[test]
fn test_session_stats() {
    let config = SessionConfig::default();
    let mut session: SerialSession<()> = SerialSession::new(config);

    session.record_send(100);
    session.record_receive(50);

    assert_eq!(session.stats.bytes_sent, 100);
    assert_eq!(session.stats.bytes_received, 50);
    assert_eq!(session.stats.messages_sent, 1);
    assert_eq!(session.stats.messages_received, 1);
}

#[test]
fn test_session_manager_creation() {
    let config = Config::default();
    let manager: SessionManager<()> = SessionManager::new(config);

    assert_eq!(manager.session_count(), 0);
    assert_eq!(manager.active_session_count(), 0);
}

#[test]
fn manager_test_session_creation() {
    let config = Config::default();
    let mut manager: SessionManager<()> = SessionManager::new(config);

    let session_config = SessionConfig {
        port_name: "/dev/ttyUSB0".to_string(),
        ..Default::default()
    };

    let session_id = manager.create_session(session_config).unwrap();
    assert!(!session_id.is_empty());
    assert_eq!(manager.session_count(), 1);

    let info = manager.get_session_info(&session_id).unwrap();
    assert_eq!(info.port_name, "/dev/ttyUSB0");
}

#[test]
fn test_session_removal() {
    let config = Config::default();
    let mut manager: SessionManager<()> = SessionManager::new(config);

    let session_config = SessionConfig {
        port_name: "/dev/ttyUSB0".to_string(),
        ..Default::default()
    };

    let session_id = manager.create_session(session_config).unwrap();
    assert_eq!(manager.session_count(), 1);

    manager.remove_session(&session_id).unwrap();
    assert_eq!(manager.session_count(), 0);
}

#[test]
fn test_session_limits() {
    let mut config = Config::default();
    config.server.max_connections = 2;
    let mut manager: SessionManager<()> = SessionManager::new(config);

    // Create first session
    let session_config1 = SessionConfig {
        port_name: "/dev/ttyUSB0".to_string(),
        ..Default::default()
    };
    manager.create_session(session_config1).unwrap();

    // Create second session
    let session_config2 = SessionConfig {
        port_name: "/dev/ttyUSB1".to_string(),
        ..Default::default()
    };
    manager.create_session(session_config2).unwrap();

    // Third session should fail
    let session_config3 = SessionConfig {
        port_name: "/dev/ttyUSB2".to_string(),
        ..Default::default()
    };
    let result = manager.create_session(session_config3);
    assert!(result.is_err());

    assert_eq!(manager.session_count(), 2);
}

fn on_port(p: &str) -> SessionConfig {
    SessionConfig { port_name: p.to_string(), ..Default::default() }
}

#[test]
fn session_config_is_validated() {
    let mut manager: SessionManager<()> = SessionManager::new(Config::default());
    match manager.create_session(SessionConfig::default()) {
        Err(SerialError::InvalidConfig(m)) => assert_eq!(m, "Port name cannot be empty"),
        _ => panic!("expected InvalidConfig"),
    }
    let mut c = on_port("COM1");
    c.baud_rate = 1234;
    assert!(matches!(manager.create_session(c), Err(SerialError::InvalidBaudRate(1234))));
    let mut c = on_port("COM1");
    c.data_bits = 4;
    assert!(matches!(manager.create_session(c), Err(SerialError::InvalidDataBits(4))));
    let mut c = on_port("COM1");
    c.parity = "mark".to_string();
    assert!(matches!(manager.create_session(c), Err(SerialError::InvalidParity(_))));
    assert_eq!(manager.session_count(), 0);
}

#[test]
fn session_restricted_ports() {
    let mut config = Config::default();
    config.security.restrict_ports = true;
    config.security.allowed_ports = vec!["ttyUSB".to_string()];
    config.security.blocked_ports = vec!["ttyUSB9".to_string()];
    let mut manager: SessionManager<()> = SessionManager::new(config);
    match manager.create_session(on_port("/dev/ttyS0")) {
        Err(SerialError::InvalidConfig(m)) => assert_eq!(m, "Port /dev/ttyS0 is not in allowed ports list"),
        _ => panic!("expected InvalidConfig"),
    }
    match manager.create_session(on_port("/dev/ttyUSB9")) {
        Err(SerialError::InvalidConfig(m)) => assert_eq!(m, "Port /dev/ttyUSB9 is blocked"),
        _ => panic!("expected InvalidConfig"),
    }
    assert!(manager.create_session(on_port("/dev/ttyUSB1")).is_ok());
}

#[test]
fn session_connect_lifecycle() {
    let mut manager: SessionManager<u8> = SessionManager::new(Config::default());
    let id = manager.create_session(on_port("COM5")).unwrap();
    assert!(matches!(manager.begin_connect("nope"), Err(SerialError::SessionNotFound(_))));
    let cfg = manager.begin_connect(&id).unwrap();
    assert_eq!(cfg.port_name, "COM5");
    manager.finish_connect(&id, 42).unwrap();
    assert_eq!(manager.active_session_count(), 1);
    assert!(manager.is_port_in_use("COM5"));
    match manager.begin_connect(&id) {
        Err(SerialError::ConnectionExists(m)) => assert_eq!(m, "Session already connected"),
        _ => panic!("expected ConnectionExists"),
    }
    // Port sharing is off by default: a second session on a busy port is refused.
    match manager.create_session(on_port("COM5")) {
        Err(SerialError::ConnectionExists(p)) => assert_eq!(p, "COM5"),
        _ => panic!("expected ConnectionExists"),
    }
    assert_eq!(*manager.get_session_connection(&id).unwrap(), 42);
    manager.record_session_send(&id, 10).unwrap();
    manager.record_session_receive(&id, 4).unwrap();
    let stats = manager.get_stats();
    assert_eq!(stats.total_sessions, 1);
    assert_eq!(stats.connected_sessions, 1);
    assert_eq!(stats.total_bytes_sent, 10);
    assert_eq!(stats.total_bytes_received, 4);
    assert_eq!(stats.total_messages_sent, 1);
    manager.disconnect_session(&id).unwrap();
    match manager.get_session_connection(&id) {
        Err(SerialError::InvalidConnection(m)) => assert_eq!(m, "Session not connected"),
        _ => panic!("expected InvalidConnection"),
    }
    manager.handle_session_error(&id, "cable".to_string()).unwrap();
    let info = manager.get_session_info(&id).unwrap();
    assert_eq!(info.state.display(), "Error: cable");
    assert_eq!(info.stats.errors_count, 1);
    assert_eq!(manager.get_stats().error_sessions, 1);
    assert!(matches!(manager.remove_session("nope"), Err(SerialError::SessionNotFound(_))));
}

#[test]
fn session_listing_and_cleanup() {
    let mut manager: SessionManager<()> = SessionManager::new(Config::default());
    let a = manager.create_session(on_port("COM1")).unwrap();
    let b = manager.create_session(on_port("COM2")).unwrap();
    assert_eq!(manager.list_sessions().len(), 2);
    let on_com2 = manager.list_sessions_for_port("COM2");
    assert_eq!(on_com2.len(), 1);
    assert_eq!(on_com2[0].session_id, b);
    let far_future = Timestamp { secs: 9_000_000_000_000, nanos: 0 };
    let removed = manager.cleanup_idle_sessions_at(far_future, 60);
    assert_eq!(removed.len(), 2);
    assert!(removed.contains(&a) && removed.contains(&b));
    assert_eq!(manager.session_count(), 0);
    // Nothing is idle for long right after creation.
    manager.create_session(on_port("COM1")).unwrap();
    assert!(manager.cleanup_idle_sessions(3600).is_empty());
    assert_eq!(manager.session_count(), 1);
}

#[test]
fn session_reconnect_and_display() {
    let mut c = on_port("COM1");
    c.max_reconnect_attempts = 2;
    let mut s: SerialSession<()> = SerialSession::new(c);
    assert!(s.attempt_reconnect());
    assert!(s.attempt_reconnect());
    assert!(!s.attempt_reconnect());
    assert_eq!(s.stats.reconnections, 2);
    s.reset_reconnect_attempts();
    assert!(s.attempt_reconnect());
    assert!(s.set_connection(()).is_ok());
    assert!(s.is_active() && s.has_connection());
    s.close();
    assert!(!s.has_connection());
    assert!(matches!(s.set_connection(()), Err(SerialError::InvalidSession(_))));
    assert_eq!(SessionState::Suspended.display(), "Suspended");
    let d = SessionStats::default();
    assert_eq!(d.bytes_sent, 0);
    assert!(d.last_activity.is_none());
}

#[test]
fn session_time_arithmetic() {
    let t1 = Timestamp { secs: 10, nanos: 500_000_000 };
    let t0 = Timestamp { secs: 8, nanos: 900_000_000 };
    assert_eq!(seconds_between(t1, t0), 1);
    assert_eq!(seconds_between(t0, t1), -1);
    let e = connect_failure(&SerialError::InvalidDataBits(9));
    match e {
        SerialError::InternalError(m) => assert_eq!(m, "Session creation failed: Invalid data bits: 9"),
        _ => panic!("expected InternalError"),
    }
}

#[test]
fn session_idle_checks() {
    let s: SerialSession<()> = SerialSession::new(on_port("COM1"));
    assert!(!s.is_idle(3600));
    assert!(s.idle_seconds() <= 1);
    assert!(s.age_seconds() >= 0);
    let later = Timestamp { secs: s.last_accessed.secs + 120, nanos: s.last_accessed.nanos };
    assert_eq!(s.idle_seconds_at(later), 120);
}

#[test]
fn session_manager_frames() {
    let mut config = Config::default();
    config.server.connection_timeout_seconds = 45;
    let mut manager: SessionManager<u8> = SessionManager::new(config);
    assert_eq!(manager.max_idle_seconds(), 45);
    let a = manager.create_session(on_port("COM1")).unwrap();
    let mut cb = on_port("COM2");
    cb.auto_reconnect = true;
    let b = manager.create_session(cb).unwrap();
    // Disconnecting a session that is not active leaves its state alone.
    manager.disconnect_session(&a).unwrap();
    assert!(matches!(manager.get_session_info(&a).unwrap().state, SessionState::Creating));
    // An active session is suspended.
    manager.finish_connect(&a, 1).unwrap();
    manager.disconnect_session(&a).unwrap();
    assert!(matches!(manager.get_session_info(&a).unwrap().state, SessionState::Suspended));
    // An error on a session that reconnects automatically counts a reconnection.
    manager.handle_session_error(&b, "lost".to_string()).unwrap();
    let info_b = manager.get_session_info(&b).unwrap();
    assert!(matches!(info_b.state, SessionState::Creating));
    assert_eq!(info_b.stats.reconnections, 1);
    assert_eq!(info_b.stats.errors_count, 1);
    // The other session is untouched.
    assert_eq!(manager.get_session_info(&a).unwrap().stats.errors_count, 0);
    // Listing describes each session as it is.
    let listed = manager.list_sessions();
    let la = listed.iter().find(|i| i.session_id == a).unwrap();
    assert!(matches!(la.state, SessionState::Suspended));
    assert!(!la.has_connection);
    let lb = manager.list_sessions_for_port("COM2");
    assert_eq!(lb.len(), 1);
    assert_eq!(lb[0].stats.reconnections, 1);
}
