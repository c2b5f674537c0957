//! A serial session: its configuration, state, statistics, timestamps and
//! optional connection.

use vstd::prelude::*;
use crate::error::SerialError;
use crate::text::owned;
use crate::utils::{is_uuid_v4_text, uuid_prefix16};

verus! {

/// A point in time: seconds since the Unix epoch and nanoseconds past them.
#[derive(Debug, Clone, Copy, PartialEq, Eq, Structural)]
pub struct Timestamp {
    pub secs: i64,
    pub nanos: u32,
}

/// The largest number of seconds a timestamp may hold in either direction.
pub const TIMESTAMP_SECS_LIMIT: i64 = 10_000_000_000_000;

impl Timestamp {
    /// Timestamps within the calendar range: at most 10^13 seconds from the
    /// epoch either way, fewer than 10^9 nanoseconds past the second.
    pub open spec fn is_valid(&self) -> bool {
        -TIMESTAMP_SECS_LIMIT <= self.secs <= TIMESTAMP_SECS_LIMIT && self.nanos < 1_000_000_000
    }

    /// Nanoseconds since the epoch.
    pub open spec fn total_nanos(&self) -> int {
        self.secs as int * 1_000_000_000 + self.nanos as int
    }
}

/// Whole seconds from `earlier` to `later`, rounded toward zero
/// (`later.signed_duration_since(earlier).num_seconds()`).
pub open spec fn whole_seconds_between(later: Timestamp, earlier: Timestamp) -> int {
    let d = later.total_nanos() - earlier.total_nanos();
    if d >= 0 {
        d / 1_000_000_000
    } else {
        -((-d) / 1_000_000_000)
    }
}

/// Whole seconds from `earlier` to `later`, rounded toward zero.
pub fn seconds_between(later: Timestamp, earlier: Timestamp) -> (r: i64)
    requires
        later.is_valid(),
        earlier.is_valid(),
    ensures
        r == whole_seconds_between(later, earlier),
{
    let a: i128 = (later.secs as i128) * 1_000_000_000 + (later.nanos as i128);
    let b: i128 = (earlier.secs as i128) * 1_000_000_000 + (earlier.nanos as i128);
    let d: i128 = a - b;
    if d >= 0 {
        (d / 1_000_000_000) as i64
    } else {
        (-((-d) / 1_000_000_000)) as i64
    }
}

/// A reading of the system clock as a timestamp: `None` when the clock
/// reads before the Unix epoch or beyond the calendar range.
pub(crate) fn clock_reading() -> (r: Option<Timestamp>)
    ensures
        r matches Some(t) ==> t.is_valid() && t.secs >= 0,
{
    match crate::utils::unix_time() {
        Some((secs, nanos)) => if secs <= 10_000_000_000_000u64 {
            Some(Timestamp { secs: secs as i64, nanos })
        } else {
            None
        },
        None => None,
    }
}

/// The current time: the clock reading, or the Unix epoch when the clock
/// gives no reading within the calendar range.
pub(crate) fn now() -> (r: Timestamp)
    ensures
        r.is_valid(),
        r.secs >= 0,
{
    match clock_reading() {
        Some(t) => t,
        None => Timestamp { secs: 0, nanos: 0 },
    }
}

/// Session state enumeration.
#[derive(Debug)]
pub enum SessionState {
    /// Session is being created
    Creating,
    /// Session is active and ready
    Active,
    /// Session is temporarily suspended
    Suspended,
    /// Session is being closed
    Closing,
    /// Session is closed
    Closed,
    /// Session encountered an error
    Error(String),
}

impl SessionState {
    /// The two states are the same, messages compared by their characters.
    pub open spec fn same_as(&self, other: &SessionState) -> bool {
        match (self, other) {
            (SessionState::Creating, SessionState::Creating) => true,
            (SessionState::Active, SessionState::Active) => true,
            (SessionState::Suspended, SessionState::Suspended) => true,
            (SessionState::Closing, SessionState::Closing) => true,
            (SessionState::Closed, SessionState::Closed) => true,
            (SessionState::Error(a), SessionState::Error(b)) => a@ == b@,
            _ => false,
        }
    }

    /// How the state displays.
    pub open spec fn display_text(&self) -> Seq<char> {
        match self {
            SessionState::Creating => "Creating"@,
            SessionState::Active => "Active"@,
            SessionState::Suspended => "Suspended"@,
            SessionState::Closing => "Closing"@,
            SessionState::Closed => "Closed"@,
            SessionState::Error(m) => "Error: "@ + m@,
        }
    }

    /// Renders how the state displays.
    pub fn display(&self) -> (r: String)
        ensures
            r@ == self.display_text(),
    {
        match self {
            SessionState::Creating => owned("Creating"),
            SessionState::Active => owned("Active"),
            SessionState::Suspended => owned("Suspended"),
            SessionState::Closing => owned("Closing"),
            SessionState::Closed => owned("Closed"),
            SessionState::Error(m) => crate::text::concat2("Error: ", m.as_str()),
        }
    }
}

impl Clone for SessionState {
    fn clone(&self) -> (r: Self)
        ensures
            r == *self,
    {
        match self {
            SessionState::Creating => SessionState::Creating,
            SessionState::Active => SessionState::Active,
            SessionState::Suspended => SessionState::Suspended,
            SessionState::Closing => SessionState::Closing,
            SessionState::Closed => SessionState::Closed,
            SessionState::Error(m) => SessionState::Error(m.clone()),
        }
    }
}

impl PartialEq for SessionState {
    fn eq(&self, other: &Self) -> (r: bool) {
        match (self, other) {
            (SessionState::Creating, SessionState::Creating) => true,
            (SessionState::Active, SessionState::Active) => true,
            (SessionState::Suspended, SessionState::Suspended) => true,
            (SessionState::Closing, SessionState::Closing) => true,
            (SessionState::Closed, SessionState::Closed) => true,
            (SessionState::Error(a), SessionState::Error(b)) => *a == *b,
            _ => false,
        }
    }
}

impl vstd::std_specs::cmp::PartialEqSpecImpl for SessionState {
    open spec fn obeys_eq_spec() -> bool {
        true
    }

    open spec fn eq_spec(&self, other: &SessionState) -> bool {
        self.same_as(other)
    }
}

impl Eq for SessionState {}

/// Session configuration.
#[derive(Debug)]
pub struct SessionConfig {
    pub port_name: String,
    pub baud_rate: u32,
    pub data_bits: u8,
    pub stop_bits: String,
    pub parity: String,
    pub flow_control: String,
    pub timeout_ms: u64,
    pub buffer_size: usize,
    pub auto_reconnect: bool,
    pub max_reconnect_attempts: u32,
    pub line_ending: String,
}

/// The default session configuration.
pub open spec fn is_default_session_config(c: SessionConfig) -> bool {
    &&& c.port_name@ == Seq::<char>::empty()
    &&& c.baud_rate == 115200
    &&& c.data_bits == 8
    &&& c.stop_bits@ == "One"@
    &&& c.parity@ == "None"@
    &&& c.flow_control@ == "None"@
    &&& c.timeout_ms == 1000
    &&& c.buffer_size == 8192
    &&& !c.auto_reconnect
    &&& c.max_reconnect_attempts == 3
    &&& c.line_ending@ == "\n"@
}

impl Default for SessionConfig {
    fn default() -> (r: Self)
        ensures
            is_default_session_config(r),
    {
        SessionConfig {
            port_name: String::new(),
            baud_rate: 115200,
            data_bits: 8,
            stop_bits: owned("One"),
            parity: owned("None"),
            flow_control: owned("None"),
            timeout_ms: 1000,
            buffer_size: 8192,
            auto_reconnect: false,
            max_reconnect_attempts: 3,
            line_ending: owned("\n"),
        }
    }
}

impl Clone for SessionConfig {
    fn clone(&self) -> (r: Self)
        ensures
            r == *self,
    {
        SessionConfig {
            port_name: self.port_name.clone(),
            baud_rate: self.baud_rate,
            data_bits: self.data_bits,
            stop_bits: self.stop_bits.clone(),
            parity: self.parity.clone(),
            flow_control: self.flow_control.clone(),
            timeout_ms: self.timeout_ms,
            buffer_size: self.buffer_size,
            auto_reconnect: self.auto_reconnect,
            max_reconnect_attempts: self.max_reconnect_attempts,
            line_ending: self.line_ending.clone(),
        }
    }
}

/// Session statistics.
#[derive(Debug, Clone, Copy, PartialEq, Eq, Structural)]
pub struct SessionStats {
    pub bytes_sent: u64,
    pub bytes_received: u64,
    pub messages_sent: u64,
    pub messages_received: u64,
    pub errors_count: u64,
    pub reconnections: u32,
    pub last_activity: Option<Timestamp>,
}

impl Default for SessionStats {
    fn default() -> (r: Self)
        ensures
            r == (SessionStats {
                bytes_sent: 0,
                bytes_received: 0,
                messages_sent: 0,
                messages_received: 0,
                errors_count: 0,
                reconnections: 0,
                last_activity: None,
            }),
    {
        SessionStats {
            bytes_sent: 0,
            bytes_received: 0,
            messages_sent: 0,
            messages_received: 0,
            errors_count: 0,
            reconnections: 0,
            last_activity: None,
        }
    }
}

impl SessionStats {
    /// Counts a message of `bytes` bytes sent.
    pub fn record_send(&mut self, bytes: usize)
        requires
            old(self).bytes_sent + bytes <= u64::MAX,
            old(self).messages_sent < u64::MAX,
        ensures
            *final(self) == (SessionStats {
                bytes_sent: (old(self).bytes_sent + bytes) as u64,
                messages_sent: (old(self).messages_sent + 1) as u64,
                last_activity: final(self).last_activity,
                ..*old(self)
            }),
            final(self).last_activity matches Some(t) && t.is_valid(),
    {
        self.bytes_sent = self.bytes_sent + bytes as u64;
        self.messages_sent = self.messages_sent + 1;
        self.last_activity = Some(now());
    }

    /// Counts a message of `bytes` bytes received.
    pub fn record_receive(&mut self, bytes: usize)
        requires
            old(self).bytes_received + bytes <= u64::MAX,
            old(self).messages_received < u64::MAX,
        ensures
            *final(self) == (SessionStats {
                bytes_received: (old(self).bytes_received + bytes) as u64,
                messages_received: (old(self).messages_received + 1) as u64,
                last_activity: final(self).last_activity,
                ..*old(self)
            }),
            final(self).last_activity matches Some(t) && t.is_valid(),
    {
        self.bytes_received = self.bytes_received + bytes as u64;
        self.messages_received = self.messages_received + 1;
        self.last_activity = Some(now());
    }

    /// Counts an error.
    pub fn record_error(&mut self)
        requires
            old(self).errors_count < u64::MAX,
        ensures
            *final(self) == (SessionStats {
                errors_count: (old(self).errors_count + 1) as u64,
                last_activity: final(self).last_activity,
                ..*old(self)
            }),
            final(self).last_activity matches Some(t) && t.is_valid(),
    {
        self.errors_count = self.errors_count + 1;
        self.last_activity = Some(now());
    }

    /// Counts a reconnection.
    pub fn record_reconnection(&mut self)
        requires
            old(self).reconnections < u32::MAX,
        ensures
            *final(self) == (SessionStats {
                reconnections: (old(self).reconnections + 1) as u32,
                last_activity: final(self).last_activity,
                ..*old(self)
            }),
            final(self).last_activity matches Some(t) && t.is_valid(),
    {
        self.reconnections = self.reconnections + 1;
        self.last_activity = Some(now());
    }
}

/// Session information for external consumption.
#[derive(Debug)]
pub struct SessionInfo {
    pub session_id: String,
    pub port_name: String,
    pub state: SessionState,
    pub created_at: Timestamp,
    pub last_accessed: Timestamp,
    pub age_seconds: i64,
    pub idle_seconds: i64,
    pub has_connection: bool,
    pub config: SessionConfig,
    pub stats: SessionStats,
}

/// `info` describes the session `s` with its age and idle time measured at
/// `now`: every field is the session's own.
pub open spec fn describes_session<C>(info: SessionInfo, s: SerialSession<C>, now: Timestamp) -> bool {
    &&& info.session_id == s.session_id
    &&& info.port_name == s.config.port_name
    &&& info.state == s.state
    &&& info.created_at == s.created_at
    &&& info.last_accessed == s.last_accessed
    &&& info.age_seconds == whole_seconds_between(now, s.created_at)
    &&& info.idle_seconds == whole_seconds_between(now, s.last_accessed)
    &&& info.has_connection == (s.connection is Some)
    &&& info.config == s.config
    &&& info.stats == s.stats
}

/// A serial session, holding a connection of type `C` while connected.
#[derive(Debug)]
pub struct SerialSession<C> {
    /// Unique session identifier
    pub session_id: String,
    /// Session configuration
    pub config: SessionConfig,
    /// Current session state
    pub state: SessionState,
    /// Session creation timestamp
    pub created_at: Timestamp,
    /// Last access timestamp
    pub last_accessed: Timestamp,
    /// Session statistics
    pub stats: SessionStats,
    /// The connection, while connected
    pub connection: Option<C>,
    /// Current reconnection attempt count
    pub reconnect_attempts: u32,
}

/// The message given when a connection is set on a closed session.
pub open spec fn closed_session_text() -> Seq<char> {
    "Cannot set connection on closed session"@
}

impl<C> SerialSession<C> {
    /// The connection held, if any.
    pub open spec fn held_connection(&self) -> Option<C> {
        self.connection
    }

    /// Reconnection attempts made since the last reset.
    pub open spec fn attempts(&self) -> u32 {
        self.reconnect_attempts
    }

    /// Timestamps are within the calendar range.
    pub open spec fn times_valid(&self) -> bool {
        self.created_at.is_valid() && self.last_accessed.is_valid()
    }

    /// Create a new session with the given configuration.
    pub fn new(config: SessionConfig) -> (r: Self)
        ensures
            r.config == config,
            r.state == SessionState::Creating,
            r.stats == SessionStats::default_spec(),
            r.held_connection() is None,
            r.attempts() == 0,
            r.created_at == r.last_accessed,
            r.times_valid(),
            exists|u: Seq<char>| is_uuid_v4_text(u) && r.session_id@ == "serial_session_"@ + uuid_prefix16(u),
    {
        let session_id = crate::utils::SessionIdGenerator::generate();
        let t = now();
        SerialSession {
            session_id,
            config,
            state: SessionState::Creating,
            created_at: t,
            last_accessed: t,
            stats: SessionStats::default(),
            connection: None,
            reconnect_attempts: 0,
        }
    }

    /// Get session ID.
    pub fn id(&self) -> (r: &str)
        ensures
            r@ == self.session_id@,
    {
        self.session_id.as_str()
    }

    /// Get port name.
    pub fn port_name(&self) -> (r: &str)
        ensures
            r@ == self.config.port_name@,
    {
        self.config.port_name.as_str()
    }

    /// Get current state.
    pub fn state(&self) -> (r: &SessionState)
        ensures
            *r == self.state,
    {
        &self.state
    }

    /// Check if session is active.
    pub fn is_active(&self) -> (r: bool)
        ensures
            r == (self.state is Active),
    {
        match self.state {
            SessionState::Active => true,
            _ => false,
        }
    }

    /// Check if session has a connection.
    pub fn has_connection(&self) -> (r: bool)
        ensures
            r == (self.held_connection() is Some),
    {
        self.connection.is_some()
    }

    /// Update last accessed time.
    pub fn touch(&mut self)
        ensures
            final(self).last_accessed.is_valid(),
            final(self).session_id == old(self).session_id,
            final(self).config == old(self).config,
            final(self).state == old(self).state,
            final(self).created_at == old(self).created_at,
            final(self).stats == old(self).stats,
            final(self).held_connection() == old(self).held_connection(),
            final(self).attempts() == old(self).attempts(),
    {
        self.last_accessed = now();
    }

    /// Set connection: refused on a closed session; otherwise the session
    /// holds it and becomes active.
    pub fn set_connection(&mut self, connection: C) -> (r: Result<(), SerialError>)
        ensures
            old(self).state is Closed ==> (r matches Err(SerialError::InvalidSession(m)) && m@ == closed_session_text()),
            old(self).state is Closed ==> *final(self) == *old(self),
            !(old(self).state is Closed) ==> r is Ok,
            !(old(self).state is Closed) ==> {
                &&& final(self).held_connection() == Some(connection)
                &&& final(self).state == SessionState::Active
                &&& final(self).last_accessed.is_valid()
                &&& final(self).session_id == old(self).session_id
                &&& final(self).config == old(self).config
                &&& final(self).created_at == old(self).created_at
                &&& final(self).stats == old(self).stats
                &&& final(self).attempts() == old(self).attempts()
            },
    {
        if let SessionState::Closed = self.state {
            return Err(SerialError::InvalidSession(owned(closed_session_text_str())));
        }
        self.connection = Some(connection);
        self.state = SessionState::Active;
        self.touch();
        Ok(())
    }

    /// Get connection.
    pub fn get_connection(&self) -> (r: Option<&C>)
        ensures
            r is Some <==> self.held_connection() is Some,
            r matches Some(c) ==> Some(*c) == self.held_connection(),
    {
        match &self.connection {
            Some(c) => Some(c),
            None => None,
        }
    }

    /// Remove connection: an active session becomes suspended.
    pub fn remove_connection(&mut self)
        ensures
            final(self).held_connection() is None,
            old(self).state is Active ==> final(self).state == SessionState::Suspended,
            !(old(self).state is Active) ==> final(self).state == old(self).state,
            final(self).last_accessed.is_valid(),
            final(self).session_id == old(self).session_id,
            final(self).config == old(self).config,
            final(self).created_at == old(self).created_at,
            final(self).stats == old(self).stats,
            final(self).attempts() == old(self).attempts(),
    {
        self.connection = None;
        if let SessionState::Active = self.state {
            self.state = SessionState::Suspended;
        }
        self.touch();
    }

    /// Set session state.
    pub fn set_state(&mut self, state: SessionState)
        ensures
            final(self).state == state,
            final(self).last_accessed.is_valid(),
            final(self).session_id == old(self).session_id,
            final(self).config == old(self).config,
            final(self).created_at == old(self).created_at,
            final(self).stats == old(self).stats,
            final(self).held_connection() == old(self).held_connection(),
            final(self).attempts() == old(self).attempts(),
    {
        self.state = state;
        self.touch();
    }

    /// Set error state and count the error.
    pub fn set_error(&mut self, error: String)
        requires
            old(self).stats.errors_count < u64::MAX,
        ensures
            final(self).state == SessionState::Error(error),
            final(self).stats.errors_count == old(self).stats.errors_count + 1,
            final(self).stats.bytes_sent == old(self).stats.bytes_sent,
            final(self).stats.bytes_received == old(self).stats.bytes_received,
            final(self).stats.messages_sent == old(self).stats.messages_sent,
            final(self).stats.messages_received == old(self).stats.messages_received,
            final(self).stats.reconnections == old(self).stats.reconnections,
            final(self).stats.last_activity is Some,
            final(self).last_accessed.is_valid(),
            final(self).session_id == old(self).session_id,
            final(self).config == old(self).config,
            final(self).created_at == old(self).created_at,
            final(self).held_connection() == old(self).held_connection(),
            final(self).attempts() == old(self).attempts(),
    {
        self.state = SessionState::Error(error);
        self.stats.record_error();
        self.touch();
    }

    /// Record data sent.
    pub fn record_send(&mut self, bytes: usize)
        requires
            old(self).stats.bytes_sent + bytes <= u64::MAX,
            old(self).stats.messages_sent < u64::MAX,
        ensures
            final(self).stats.bytes_sent == old(self).stats.bytes_sent + bytes,
            final(self).stats.messages_sent == old(self).stats.messages_sent + 1,
            final(self).stats.bytes_received == old(self).stats.bytes_received,
            final(self).stats.messages_received == old(self).stats.messages_received,
            final(self).stats.errors_count == old(self).stats.errors_count,
            final(self).stats.reconnections == old(self).stats.reconnections,
            final(self).stats.last_activity is Some,
            final(self).last_accessed.is_valid(),
            final(self).session_id == old(self).session_id,
            final(self).config == old(self).config,
            final(self).state == old(self).state,
            final(self).created_at == old(self).created_at,
            final(self).held_connection() == old(self).held_connection(),
            final(self).attempts() == old(self).attempts(),
    {
        self.stats.record_send(bytes);
        self.touch();
    }

    /// Record data received.
    pub fn record_receive(&mut self, bytes: usize)
        requires
            old(self).stats.bytes_received + bytes <= u64::MAX,
            old(self).stats.messages_received < u64::MAX,
        ensures
            final(self).stats.bytes_received == old(self).stats.bytes_received + bytes,
            final(self).stats.messages_received == old(self).stats.messages_received + 1,
            final(self).stats.bytes_sent == old(self).stats.bytes_sent,
            final(self).stats.messages_sent == old(self).stats.messages_sent,
            final(self).stats.errors_count == old(self).stats.errors_count,
            final(self).stats.reconnections == old(self).stats.reconnections,
            final(self).stats.last_activity is Some,
            final(self).last_accessed.is_valid(),
            final(self).session_id == old(self).session_id,
            final(self).config == old(self).config,
            final(self).state == old(self).state,
            final(self).created_at == old(self).created_at,
            final(self).held_connection() == old(self).held_connection(),
            final(self).attempts() == old(self).attempts(),
    {
        self.stats.record_receive(bytes);
        self.touch();
    }

    /// Attempt reconnection: refused once the configured number of attempts
    /// is used up; otherwise one more attempt is counted.
    pub fn attempt_reconnect(&mut self) -> (r: bool)
        requires
            old(self).stats.reconnections < u32::MAX,
        ensures
            r == (old(self).attempts() < old(self).config.max_reconnect_attempts),
            !r ==> *final(self) == *old(self),
            r ==> final(self).attempts() == old(self).attempts() + 1,
            r ==> final(self).stats.reconnections == old(self).stats.reconnections + 1,
            r ==> final(self).stats.errors_count == old(self).stats.errors_count,
            r ==> final(self).stats.bytes_sent == old(self).stats.bytes_sent,
            r ==> final(self).stats.bytes_received == old(self).stats.bytes_received,
            r ==> final(self).stats.messages_sent == old(self).stats.messages_sent,
            r ==> final(self).stats.messages_received == old(self).stats.messages_received,
            r ==> final(self).last_accessed.is_valid(),
            final(self).session_id == old(self).session_id,
            final(self).config == old(self).config,
            final(self).state == old(self).state,
            final(self).created_at == old(self).created_at,
            final(self).held_connection() == old(self).held_connection(),
    {
        if self.reconnect_attempts >= self.config.max_reconnect_attempts {
            return false;
        }
        self.reconnect_attempts = self.reconnect_attempts + 1;
        self.stats.record_reconnection();
        self.touch();
        true
    }

    /// Reset reconnection counter.
    pub fn reset_reconnect_attempts(&mut self)
        ensures
            final(self).attempts() == 0,
            final(self).session_id == old(self).session_id,
            final(self).config == old(self).config,
            final(self).state == old(self).state,
            final(self).created_at == old(self).created_at,
            final(self).last_accessed == old(self).last_accessed,
            final(self).stats == old(self).stats,
            final(self).held_connection() == old(self).held_connection(),
    {
        self.reconnect_attempts = 0;
    }

    /// Close session: the connection is dropped and the session ends closed.
    pub fn close(&mut self)
        ensures
            final(self).state == SessionState::Closed,
            final(self).held_connection() is None,
            final(self).last_accessed.is_valid(),
            final(self).session_id == old(self).session_id,
            final(self).config == old(self).config,
            final(self).created_at == old(self).created_at,
            final(self).stats == old(self).stats,
            final(self).attempts() == old(self).attempts(),
    {
        self.state = SessionState::Closing;
        self.connection = None;
        self.touch();
        self.state = SessionState::Closed;
    }

    /// Session age in seconds at time `now`.
    pub fn age_seconds_at(&self, now: Timestamp) -> (r: i64)
        requires
            self.times_valid(),
            now.is_valid(),
        ensures
            r == whole_seconds_between(now, self.created_at),
    {
        seconds_between(now, self.created_at)
    }

    /// Seconds since last access at time `now`.
    pub fn idle_seconds_at(&self, now: Timestamp) -> (r: i64)
        requires
            self.times_valid(),
            now.is_valid(),
        ensures
            r == whole_seconds_between(now, self.last_accessed),
    {
        seconds_between(now, self.last_accessed)
    }

    /// Get session age in seconds: measured against a reading of the system
    /// clock, which lies at or after the Unix epoch.
    pub fn age_seconds(&self) -> (r: i64)
        requires
            self.times_valid(),
        ensures
            exists|t: Timestamp| t.is_valid() && t.secs >= 0 && r == whole_seconds_between(t, self.created_at),
    {
        let t = now();
        self.age_seconds_at(t)
    }

    /// Get seconds since last access: measured against a reading of the
    /// system clock, which lies at or after the Unix epoch.
    pub fn idle_seconds(&self) -> (r: i64)
        requires
            self.times_valid(),
        ensures
            exists|t: Timestamp| t.is_valid() && t.secs >= 0 && r == whole_seconds_between(t, self.last_accessed),
    {
        let t = now();
        self.idle_seconds_at(t)
    }

    /// Check if session is idle for more than the specified duration.
    pub fn is_idle(&self, max_idle_seconds: i64) -> (r: bool)
        requires
            self.times_valid(),
        ensures
            exists|t: Timestamp| t.is_valid() && r == (whole_seconds_between(t, self.last_accessed) > max_idle_seconds),
    {
        self.idle_seconds() > max_idle_seconds
    }

    /// Session information at time `now`.
    pub fn info_at(&self, now: Timestamp) -> (r: SessionInfo)
        requires
            self.times_valid(),
            now.is_valid(),
        ensures
            r.session_id == self.session_id,
            r.port_name == self.config.port_name,
            r.state == self.state,
            r.created_at == self.created_at,
            r.last_accessed == self.last_accessed,
            r.age_seconds == whole_seconds_between(now, self.created_at),
            r.idle_seconds == whole_seconds_between(now, self.last_accessed),
            r.has_connection == (self.held_connection() is Some),
            r.config == self.config,
            r.stats == self.stats,
    {
        SessionInfo {
            session_id: self.session_id.clone(),
            port_name: self.config.port_name.clone(),
            state: self.state.clone(),
            created_at: self.created_at,
            last_accessed: self.last_accessed,
            age_seconds: self.age_seconds_at(now),
            idle_seconds: self.idle_seconds_at(now),
            has_connection: self.has_connection(),
            config: self.config.clone(),
            stats: self.stats,
        }
    }

    /// Get session information.
    pub fn info(&self) -> (r: SessionInfo)
        requires
            self.times_valid(),
        ensures
            r.session_id == self.session_id,
            r.port_name == self.config.port_name,
            r.state == self.state,
            r.created_at == self.created_at,
            r.last_accessed == self.last_accessed,
            r.has_connection == (self.held_connection() is Some),
            r.config == self.config,
            r.stats == self.stats,
            exists|t: Timestamp| t.is_valid() && r.age_seconds == whole_seconds_between(t, self.created_at)
                && r.idle_seconds == whole_seconds_between(t, self.last_accessed),
    {
        let t = now();
        self.info_at(t)
    }
}

impl SessionStats {
    /// Fresh statistics: all counts zero, no activity.
    pub open spec fn default_spec() -> SessionStats {
        SessionStats {
            bytes_sent: 0,
            bytes_received: 0,
            messages_sent: 0,
            messages_received: 0,
            errors_count: 0,
            reconnections: 0,
            last_activity: None,
        }
    }
}

fn closed_session_text_str() -> (r: &'static str)
    ensures
        r@ == closed_session_text(),
{
    "Cannot set connection on closed session"
}

} // verus!
