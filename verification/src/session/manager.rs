//! The session manager: sessions by identifier, within the limits and
//! port restrictions of the server configuration.

use vstd::prelude::*;
use crate::config::Config;
use crate::error::SerialError;
use crate::registry::Registry;
use crate::text::{concat2, contains_run, owned, push_str};
use crate::utils::{is_flow_control_name, is_parity_name, is_standard_baud_rate, is_stop_bits_name};
use super::session::{describes_session, SerialSession, SessionConfig, SessionInfo, SessionState, Timestamp, whole_seconds_between};

verus! {

/// Session manager statistics.
#[derive(Debug, Clone, Copy, PartialEq, Eq, Structural)]
pub struct SessionManagerStats {
    pub total_sessions: usize,
    pub active_sessions: usize,
    pub connected_sessions: usize,
    pub error_sessions: usize,
    pub total_bytes_sent: u64,
    pub total_bytes_received: u64,
    pub total_messages_sent: u64,
    pub total_messages_received: u64,
}

/// Sessions by identifier, within the limits of the server configuration.
#[derive(Debug)]
pub struct SessionManager<C> {
    sessions: Registry<SerialSession<C>>,
    config: Config,
}

/// Some pattern of the list occurs in the port name.
pub open spec fn matches_some_pattern(port: Seq<char>, patterns: Seq<String>) -> bool {
    exists|i: int| 0 <= i < patterns.len() && contains_run(port, #[trigger] patterns[i]@)
}

/// `e` is the error for the first rule the session configuration `c` breaks
/// under the server configuration `settings`; `None` when it breaks none.
pub open spec fn session_config_error(settings: Config, c: SessionConfig, e: Option<SerialError>) -> bool {
    if c.port_name@.len() == 0 {
        e matches Some(SerialError::InvalidConfig(m)) && m@ == "Port name cannot be empty"@
    } else if !is_standard_baud_rate(c.baud_rate) {
        e matches Some(SerialError::InvalidBaudRate(b)) && b == c.baud_rate
    } else if !(5 <= c.data_bits <= 8) {
        e matches Some(SerialError::InvalidDataBits(d)) && d == c.data_bits
    } else if !is_stop_bits_name(c.stop_bits@) {
        e matches Some(SerialError::InvalidStopBits(m)) && m@ == c.stop_bits@
    } else if !is_parity_name(c.parity@) {
        e matches Some(SerialError::InvalidParity(m)) && m@ == c.parity@
    } else if !is_flow_control_name(c.flow_control@) {
        e matches Some(SerialError::InvalidFlowControl(m)) && m@ == c.flow_control@
    } else if settings.security.restrict_ports && settings.security.allowed_ports@.len() > 0
        && !matches_some_pattern(c.port_name@, settings.security.allowed_ports@) {
        e matches Some(SerialError::InvalidConfig(m)) && m@ == "Port "@ + c.port_name@ + " is not in allowed ports list"@
    } else if settings.security.restrict_ports && matches_some_pattern(c.port_name@, settings.security.blocked_ports@) {
        e matches Some(SerialError::InvalidConfig(m)) && m@ == "Port "@ + c.port_name@ + " is blocked"@
    } else {
        e is None
    }
}

/// The number of sessions in `s` that satisfy `p`.
pub open spec fn count_where<C>(s: Seq<SerialSession<C>>, p: spec_fn(SerialSession<C>) -> bool) -> nat
    decreases s.len(),
{
    if s.len() == 0 {
        0
    } else {
        count_where(s.drop_last(), p) + if p(s.last()) { 1nat } else { 0nat }
    }
}

/// The sum over `s` of a count of each session.
pub open spec fn sum_of<C>(s: Seq<SerialSession<C>>, f: spec_fn(SerialSession<C>) -> u64) -> nat
    decreases s.len(),
{
    if s.len() == 0 {
        0
    } else {
        sum_of(s.drop_last(), f) + f(s.last()) as nat
    }
}

/// A session of the port named, or any session when no port is named.
pub open spec fn on_port<C>(port_name: Option<&str>, s: SerialSession<C>) -> bool {
    match port_name {
        Some(p) => s.config.port_name@ == p@,
        None => true,
    }
}

/// How often idle sessions are cleaned up, in seconds.
pub const CLEANUP_INTERVAL_SECONDS: u64 = 60;

/// `after` is `before` with at most the session `id` changed: the same
/// identifiers, and every other session as it was.
pub open spec fn others_unchanged<C>(before: Map<Seq<char>, SerialSession<C>>, after: Map<Seq<char>, SerialSession<C>>, id: Seq<char>) -> bool {
    &&& after.dom() == before.dom()
    &&& forall|k: Seq<char>| #[trigger] before.contains_key(k) && k != id ==> after[k] == before[k]
}

/// `after` is the session `before` with the same identity: identifier,
/// configuration and creation time.
pub open spec fn same_identity<C>(before: SerialSession<C>, after: SerialSession<C>) -> bool {
    &&& after.session_id == before.session_id
    &&& after.config == before.config
    &&& after.created_at == before.created_at
}

/// The message given when connecting a session that holds a connection.
pub open spec fn already_connected_text() -> Seq<char> {
    "Session already connected"@
}

/// The message given when a session without connection is asked for it.
pub open spec fn not_connected_text() -> Seq<char> {
    "Session not connected"@
}

/// Some session of the map uses `port` and holds a connection.
pub open spec fn port_busy<C>(m: Map<Seq<char>, SerialSession<C>>, port: Seq<char>) -> bool {
    exists|k: Seq<char>| #[trigger] m.contains_key(k) && m[k].config.port_name@ == port && m[k].connection is Some
}

/// Only a connection holds a port: when no session on `port` holds a
/// connection, the port is not busy, whatever else the sessions are.
pub proof fn lemma_unconnected_port_free<C>(m: Map<Seq<char>, SerialSession<C>>, port: Seq<char>)
    requires
        forall|k: Seq<char>| #[trigger] m.contains_key(k) && m[k].config.port_name@ == port ==> m[k].connection is None,
    ensures
        !port_busy(m, port),
        forall|k: Seq<char>, s: SerialSession<C>| s.connection is None ==> !port_busy(#[trigger] m.insert(k, s), port),
{
    assert forall|k: Seq<char>, s: SerialSession<C>| s.connection is None implies !port_busy(#[trigger] m.insert(k, s), port) by {
        let m2 = m.insert(k, s);
        if port_busy(m2, port) {
            let j = choose|j: Seq<char>| #[trigger] m2.contains_key(j) && m2[j].config.port_name@ == port
                && m2[j].connection is Some;
            if j != k {
                assert(m.contains_key(j));
            }
        }
    }
}

fn already_connected_str() -> (r: &'static str)
    ensures
        r@ == already_connected_text(),
{
    "Session already connected"
}

fn not_connected_str() -> (r: &'static str)
    ensures
        r@ == not_connected_text(),
{
    "Session not connected"
}

/// The error connecting a session reports when its port could not be
/// opened: a failed session creation carrying the cause's message.
pub fn connect_failure(cause: &SerialError) -> (r: SerialError)
    ensures
        r matches SerialError::InternalError(m) && m@.len() >= "Session creation failed: "@.len() && m@.take(
            "Session creation failed: "@.len() as int,
        ) == "Session creation failed: "@ && (match cause.known_text() {
            Some(t) => m@.skip("Session creation failed: "@.len() as int) == t,
            None => m@.skip("Session creation failed: "@.len() as int).len() >= cause.label().len()
                && m@.skip("Session creation failed: "@.len() as int).take(cause.label().len() as int)
                == cause.label(),
        }),
{
    let t = cause.message();
    let e = crate::error::SessionError::CreationFailed(t);
    let r = e.into_serial_error();
    proof {
        let p = "Session creation failed: "@;
        assert((p + t@).take(p.len() as int) =~= p);
        assert((p + t@).skip(p.len() as int) =~= t@);
    }
    r
}

impl<C> SessionManager<C> {
    /// The sessions by identifier.
    pub closed spec fn view(&self) -> Map<Seq<char>, SerialSession<C>> {
        self.sessions@
    }

    /// The server configuration the manager was made with.
    pub closed spec fn settings(&self) -> Config {
        self.config
    }

    /// Session identifiers in the order the sessions were created.
    pub closed spec fn id_order(&self) -> Seq<Seq<char>> {
        self.sessions.key_order()
    }

    /// The sessions in the order they were created.
    pub closed spec fn ordered(&self) -> Seq<SerialSession<C>> {
        self.sessions.key_order().map_values(|k: Seq<char>| self.sessions@[k])
    }

    /// Identifiers match the sessions they name, timestamps are valid, and
    /// there are never more sessions than the configured connection limit.
    pub closed spec fn wf(&self) -> bool {
        &&& self.sessions.wf()
        &&& self.sessions@.len() <= self.config.server.max_connections
        &&& forall|k: Seq<char>| #[trigger] self.sessions@.contains_key(k) ==> self.sessions@[k].session_id@ == k
            && self.sessions@[k].times_valid()
    }

    /// What a well-formed manager guarantees.
    pub proof fn lemma_wf(&self)
        requires
            self.wf(),
        ensures
            self@.len() <= self.settings().server.max_connections,
            self@.dom().finite(),
            self.ordered().len() == self@.len(),
            forall|k: Seq<char>| #[trigger] self@.contains_key(k) ==> self@[k].session_id@ == k && self@[k].times_valid(),
            forall|i: int| 0 <= i < self.ordered().len() ==> self@.contains_key(#[trigger] self.ordered()[i].session_id@),
    {
        self.sessions.lemma_positions();
        assert forall|i: int| 0 <= i < self.ordered().len() implies self@.contains_key(#[trigger] self.ordered()[i].session_id@) by {
            let k = self.sessions.key_order()[i];
            assert(self.sessions@.contains_key(k));
        }
    }

    /// The ordered sessions are exactly the sessions of the map, each once:
    /// every position holds the session stored under its identifier, no
    /// identifier occurs at two positions, and every stored session occurs.
    pub proof fn lemma_ordered(&self)
        requires
            self.wf(),
        ensures
            self.ordered().len() == self@.len(),
            forall|i: int| 0 <= i < self.ordered().len() ==> #[trigger] self@.contains_key(self.ordered()[i].session_id@)
                && self@[self.ordered()[i].session_id@] == self.ordered()[i],
            forall|i: int, j: int|
                0 <= i < self.ordered().len() && 0 <= j < self.ordered().len() && i != j
                    ==> #[trigger] self.ordered()[i].session_id@ != #[trigger] self.ordered()[j].session_id@,
            forall|k: Seq<char>| #[trigger] self@.contains_key(k) ==> exists|i: int|
                0 <= i < self.ordered().len() && self.ordered()[i].session_id@ == k,
    {
        self.sessions.lemma_positions();
        let ko = self.sessions.key_order();
        assert forall|i: int| 0 <= i < self.ordered().len() implies #[trigger] self@.contains_key(self.ordered()[i].session_id@)
            && self@[self.ordered()[i].session_id@] == self.ordered()[i] by {
            assert(self.ordered()[i] == self.sessions@[ko[i]]);
            assert(self.sessions@.contains_key(ko[i]));
        }
        assert forall|i: int, j: int|
            0 <= i < self.ordered().len() && 0 <= j < self.ordered().len() && i != j
                implies #[trigger] self.ordered()[i].session_id@ != #[trigger] self.ordered()[j].session_id@ by {
            assert(self.ordered()[i] == self.sessions@[ko[i]]);
            assert(self.ordered()[j] == self.sessions@[ko[j]]);
            assert(self.sessions@.contains_key(ko[i]) && self.sessions@.contains_key(ko[j]));
        }
        assert forall|k: Seq<char>| #[trigger] self@.contains_key(k) implies exists|i: int|
            0 <= i < self.ordered().len() && self.ordered()[i].session_id@ == k by {
            let i = choose|i: int| 0 <= i < ko.len() && ko[i] == k;
            assert(self.ordered()[i] == self.sessions@[ko[i]]);
        }
    }

    /// Create a new session manager.
    pub fn new(config: Config) -> (r: Self)
        ensures
            r.wf(),
            r@ == Map::<Seq<char>, SerialSession<C>>::empty(),
            r.settings() == config,
    {
        SessionManager { sessions: Registry::new(), config }
    }

    /// Whether some pattern of the list occurs in the port name.
    fn any_pattern_in(port: &str, patterns: &Vec<String>) -> (r: bool)
        ensures
            r == matches_some_pattern(port@, patterns@),
    {
        let p = crate::text::chars_of(port);
        let mut i: usize = 0;
        while i < patterns.len()
            invariant
                i <= patterns@.len(),
                p@ == port@,
                forall|j: int| 0 <= j < i ==> !contains_run(port@, #[trigger] patterns@[j]@),
            decreases patterns@.len() - i,
        {
            let pat = crate::text::chars_of(patterns[i].as_str());
            if crate::text::contains_chars(&p, &pat) {
                return true;
            }
            i = i + 1;
        }
        false
    }

    /// Validate a session configuration against the server configuration:
    /// the first rule broken is reported.
    pub fn validate_session_config(&self, config: &SessionConfig) -> (r: Result<(), SerialError>)
        ensures
            session_config_error(self.settings(), *config, match r {
                Ok(_) => None,
                Err(e) => Some(e),
            }),
    {
        if config.port_name.as_str().is_empty() {
            return Err(SerialError::InvalidConfig(owned("Port name cannot be empty")));
        }
        crate::utils::Validator::validate_baud_rate(config.baud_rate)?;
        crate::utils::Validator::validate_data_bits(config.data_bits)?;
        crate::utils::Validator::validate_stop_bits(config.stop_bits.as_str())?;
        crate::utils::Validator::validate_parity(config.parity.as_str())?;
        crate::utils::Validator::validate_flow_control(config.flow_control.as_str())?;
        if self.config.security.restrict_ports {
            if self.config.security.allowed_ports.len() > 0 && !Self::any_pattern_in(
                config.port_name.as_str(),
                &self.config.security.allowed_ports,
            ) {
                let mut m = concat2("Port ", config.port_name.as_str());
                push_str(&mut m, " is not in allowed ports list");
                return Err(SerialError::InvalidConfig(m));
            }
            if Self::any_pattern_in(config.port_name.as_str(), &self.config.security.blocked_ports) {
                let mut m = concat2("Port ", config.port_name.as_str());
                push_str(&mut m, " is blocked");
                return Err(SerialError::InvalidConfig(m));
            }
        }
        Ok(())
    }

    /// Check if a port is used by a session that holds a connection.
    pub fn is_port_in_use(&self, port_name: &str) -> (r: bool)
        requires
            self.wf(),
        ensures
            r == port_busy(self@, port_name@),
            r ==> exists|k: Seq<char>| #[trigger] self@.contains_key(k) && self@[k].config.port_name@ == port_name@
                && self@[k].connection is Some,
            (forall|k: Seq<char>| #[trigger] self@.contains_key(k) && self@[k].config.port_name@ == port_name@
                ==> self@[k].connection is None) ==> !r,
    {
        proof {
            self.sessions.lemma_positions();
        }
        let n = self.sessions.len();
        let mut i: usize = 0;
        while i < n
            invariant
                self.sessions.wf(),
                n == self.sessions.key_order().len(),
                i <= n,
                forall|j: int| 0 <= j < i ==> !(#[trigger] self.sessions@[self.sessions.key_order()[j]].config.port_name@
                    == port_name@ && self.sessions@[self.sessions.key_order()[j]].connection is Some),
            decreases n - i,
        {
            let s = self.sessions.value_at(i);
            if crate::registry::string_equals(&s.config.port_name, port_name) && s.has_connection() {
                proof {
                    self.sessions.lemma_positions();
                    assert(self.sessions@.contains_key(self.sessions.key_order()[i as int]));
                }
                return true;
            }
            i = i + 1;
        }
        proof {
            self.sessions.lemma_positions();
            if port_busy(self.sessions@, port_name@) {
                let k = choose|k: Seq<char>| #[trigger] self.sessions@.contains_key(k)
                    && self.sessions@[k].config.port_name@ == port_name@ && self.sessions@[k].connection is Some;
                let j = choose|j: int| 0 <= j < self.sessions.key_order().len() && self.sessions.key_order()[j] == k;
                assert(self.sessions@[self.sessions.key_order()[j]].config.port_name@ == port_name@);
            }
        }
        false
    }

    /// Create a new session with the given configuration.
    pub fn create_session(&mut self, config: SessionConfig) -> (r: Result<String, SerialError>)
        requires
            old(self).wf(),
        ensures
            final(self).wf(),
            final(self).settings() == old(self).settings(),
            r is Err ==> final(self)@ == old(self)@,
            // Rules of the configuration come first.
            !session_config_error(old(self).settings(), config, None) ==> r is Err
                && session_config_error(old(self).settings(), config, Some(r->Err_0)),
            // Then the session limit.
            session_config_error(old(self).settings(), config, None) && old(self)@.len()
                >= old(self).settings().server.max_connections ==> (r matches Err(SerialError::SessionLimitExceeded(n))
                && n == old(self).settings().server.max_connections),
            // Then exclusive use of ports.
            session_config_error(old(self).settings(), config, None) && old(self)@.len()
                < old(self).settings().server.max_connections && !old(self).settings().serial.allow_port_sharing
                && port_busy(old(self)@, config.port_name@) ==> (r matches Err(SerialError::ConnectionExists(p)) && p@
                == config.port_name@),
            // Otherwise a new session in state Creating.
            session_config_error(old(self).settings(), config, None) && old(self)@.len()
                < old(self).settings().server.max_connections && !(!old(self).settings().serial.allow_port_sharing
                && port_busy(old(self)@, config.port_name@)) ==> r is Ok,
            // A session without a connection does not hold its port.
            session_config_error(old(self).settings(), config, None) && old(self)@.len()
                < old(self).settings().server.max_connections && (forall|k: Seq<char>| #[trigger] old(self)@.contains_key(k)
                && old(self)@[k].config.port_name@ == config.port_name@ ==> old(self)@[k].connection is None) ==> r is Ok,
            r matches Ok(id) ==> {
                &&& final(self)@.contains_key(id@)
                &&& final(self)@ == old(self)@.insert(id@, final(self)@[id@])
                &&& final(self)@[id@].config == config
                &&& final(self)@[id@].state == SessionState::Creating
                &&& final(self)@[id@].connection is None
                &&& final(self)@[id@].session_id@ == id@
                &&& exists|u: Seq<char>| crate::utils::is_uuid_v4_text(u) && id@ == "serial_session_"@
                    + crate::utils::uuid_prefix16(u)
            },
            r is Ok && !old(self)@.contains_key(r->Ok_0@) ==> final(self)@.len() == old(self)@.len() + 1,
    {
        proof {
            self.sessions.lemma_positions();
        }
        self.validate_session_config(&config)?;
        if self.sessions.len() >= self.config.server.max_connections {
            return Err(SerialError::SessionLimitExceeded(self.config.server.max_connections));
        }
        if !self.config.serial.allow_port_sharing {
            if self.is_port_in_use(config.port_name.as_str()) {
                return Err(SerialError::ConnectionExists(config.port_name.clone()));
            }
        }
        let session = SerialSession::new(config);
        let session_id = session.session_id.clone();
        let key = session.session_id.clone();
        let ghost old_map = self.sessions@;
        self.sessions.insert(key, session);
        proof {
            self.sessions.lemma_positions();
            old(self).sessions.lemma_positions();
            assert forall|k: Seq<char>| #[trigger] self.sessions@.contains_key(k) implies self.sessions@[k].session_id@ == k
                && self.sessions@[k].times_valid() by {
                if k != session_id@ {
                    assert(old_map.contains_key(k));
                }
            }
            assert(old_map.insert(session_id@, self.sessions@[session_id@]) =~= self.sessions@);
        }
        Ok(session_id)
    }

    /// Look up the session to connect: it must exist and hold no connection.
    /// Its configuration is handed back for opening the port.
    pub fn begin_connect(&self, session_id: &str) -> (r: Result<SessionConfig, SerialError>)
        requires
            self.wf(),
        ensures
            !self@.contains_key(session_id@) ==> (r matches Err(SerialError::SessionNotFound(m)) && m@ == session_id@),
            self@.contains_key(session_id@) && self@[session_id@].connection is Some ==> (r matches Err(
                SerialError::ConnectionExists(m),
            ) && m@ == already_connected_text()),
            self@.contains_key(session_id@) && self@[session_id@].connection is None ==> (r matches Ok(c)
                && c == self@[session_id@].config),
    {
        match self.sessions.get(session_id) {
            None => Err(SerialError::SessionNotFound(owned(session_id))),
            Some(s) => {
                if s.has_connection() {
                    Err(SerialError::ConnectionExists(owned(already_connected_str())))
                } else {
                    Ok(s.config.clone())
                }
            },
        }
    }

    /// Takes the session `session_id` out, for an update that puts it back.
    fn take_session(&mut self, session_id: &str) -> (r: Option<(usize, String, SerialSession<C>)>)
        requires
            old(self).wf(),
        ensures
            r is None <==> !old(self)@.contains_key(session_id@),
            r is None ==> *final(self) == *old(self),
            r matches Some(t) ==> {
                &&& t.1@ == session_id@
                &&& t.2 == old(self)@[session_id@]
                &&& t.0 <= final(self).sessions.key_order().len()
                &&& final(self).sessions.wf()
                &&& final(self)@ == old(self)@.remove(session_id@)
                &&& final(self).config == old(self).config
            },
    {
        match self.sessions.position(session_id) {
            None => None,
            Some(i) => {
                let (key, s) = self.sessions.take_at(i);
                Some((i, key, s))
            },
        }
    }

    /// Puts an updated session back where it was taken from.
    fn put_session(&mut self, i: usize, key: String, s: SerialSession<C>)
        requires
            old(self).sessions.wf(),
            i <= old(self).sessions.key_order().len(),
            !old(self)@.contains_key(key@),
            old(self)@.len() < old(self).config.server.max_connections,
            forall|k: Seq<char>| #[trigger] old(self)@.contains_key(k) ==> old(self)@[k].session_id@ == k
                && old(self)@[k].times_valid(),
            s.session_id@ == key@,
            s.times_valid(),
        ensures
            final(self).wf(),
            final(self)@ == old(self)@.insert(key@, s),
            final(self).config == old(self).config,
    {
        proof {
            self.sessions.lemma_positions();
        }
        let ghost before = self.sessions@;
        self.sessions.put_at(i, key, s);
        proof {
            self.sessions.lemma_positions();
            assert forall|k: Seq<char>| #[trigger] self.sessions@.contains_key(k) implies self.sessions@[k].session_id@ == k
                && self.sessions@[k].times_valid() by {
                if k != s.session_id@ {
                    assert(before.contains_key(k));
                }
            }
        }
    }

    /// Hand a newly opened connection to the session `session_id`: it holds
    /// it, becomes active and its reconnection count is reset.
    pub fn finish_connect(&mut self, session_id: &str, connection: C) -> (r: Result<(), SerialError>)
        requires
            old(self).wf(),
        ensures
            final(self).wf(),
            final(self).settings() == old(self).settings(),
            !old(self)@.contains_key(session_id@) ==> (r matches Err(SerialError::SessionNotFound(m)) && m@
                == session_id@),
            r is Err ==> final(self)@ == old(self)@,
            old(self)@.contains_key(session_id@) && old(self)@[session_id@].state is Closed ==> (r matches Err(
                SerialError::InvalidSession(m),
            ) && m@ == super::session::closed_session_text()),
            old(self)@.contains_key(session_id@) && !(old(self)@[session_id@].state is Closed) ==> r is Ok,
            r is Ok ==> {
                &&& final(self)@.dom() == old(self)@.dom()
                &&& forall|k: Seq<char>| #[trigger] final(self)@.contains_key(k) && k != session_id@ ==> final(self)@[k]
                    == old(self)@[k]
                &&& final(self)@[session_id@].connection == Some(connection)
                &&& final(self)@[session_id@].state == SessionState::Active
                &&& final(self)@[session_id@].reconnect_attempts == 0
                &&& final(self)@[session_id@].config == old(self)@[session_id@].config
                &&& final(self)@[session_id@].stats == old(self)@[session_id@].stats
            },
    {
        proof {
            self.sessions.lemma_positions();
        }
        let ghost before = self.sessions@;
        match self.take_session(session_id) {
            None => Err(SerialError::SessionNotFound(owned(session_id))),
            Some((i, key, mut s)) => {
                let ghost original = s;
                let res = s.set_connection(connection);
                match res {
                    Ok(()) => {
                        s.reset_reconnect_attempts();
                    },
                    Err(_) => {},
                }
                self.put_session(i, key, s);
                proof {
                    if res is Err {
                        assert(before.remove(session_id@).insert(session_id@, original) =~= before);
                    } else {
                        assert(self.sessions@.dom() =~= before.dom());
                    }
                }
                res
            },
        }
    }

    /// Disconnect a session: it drops its connection.
    pub fn disconnect_session(&mut self, session_id: &str) -> (r: Result<(), SerialError>)
        requires
            old(self).wf(),
        ensures
            final(self).wf(),
            final(self).settings() == old(self).settings(),
            !old(self)@.contains_key(session_id@) ==> (r matches Err(SerialError::SessionNotFound(m)) && m@
                == session_id@) && final(self)@ == old(self)@,
            old(self)@.contains_key(session_id@) ==> {
                let (o, n) = (old(self)@[session_id@], final(self)@[session_id@]);
                &&& r is Ok
                &&& others_unchanged(old(self)@, final(self)@, session_id@)
                &&& same_identity(o, n)
                &&& n.connection is None
                &&& o.state is Active ==> n.state == SessionState::Suspended
                &&& !(o.state is Active) ==> n.state == o.state
                &&& n.stats == o.stats
                &&& n.reconnect_attempts == o.reconnect_attempts
            },
    {
        proof {
            self.sessions.lemma_positions();
        }
        let ghost before = self.sessions@;
        match self.take_session(session_id) {
            None => Err(SerialError::SessionNotFound(owned(session_id))),
            Some((i, key, mut s)) => {
                s.remove_connection();
                self.put_session(i, key, s);
                assert(self.sessions@.dom() =~= before.dom());
                Ok(())
            },
        }
    }

    /// Remove a session; it is closed.
    pub fn remove_session(&mut self, session_id: &str) -> (r: Result<(), SerialError>)
        requires
            old(self).wf(),
        ensures
            final(self).wf(),
            final(self).settings() == old(self).settings(),
            final(self)@ == old(self)@.remove(session_id@),
            old(self)@.contains_key(session_id@) ==> r is Ok && final(self)@.len() + 1 == old(self)@.len(),
            !old(self)@.contains_key(session_id@) ==> (r matches Err(SerialError::SessionNotFound(m)) && m@
                == session_id@),
    {
        proof {
            self.sessions.lemma_positions();
        }
        let ghost before = self.sessions@;
        match self.sessions.remove(session_id) {
            Some(mut session) => {
                session.close();
                proof {
                    self.sessions.lemma_positions();
                    assert forall|k: Seq<char>| #[trigger] self.sessions@.contains_key(k) implies self.sessions@[k].session_id@ == k
                        && self.sessions@[k].times_valid() by {
                        assert(before.contains_key(k));
                    }
                }
                Ok(())
            },
            None => Err(SerialError::SessionNotFound(owned(session_id))),
        }
    }

    /// Get session information at time `now`.
    pub fn get_session_info_at(&self, session_id: &str, now: Timestamp) -> (r: Result<SessionInfo, SerialError>)
        requires
            self.wf(),
            now.is_valid(),
        ensures
            !self@.contains_key(session_id@) ==> (r matches Err(SerialError::SessionNotFound(m)) && m@ == session_id@),
            self@.contains_key(session_id@) ==> (r matches Ok(info) && info.session_id@ == session_id@
                && info.port_name == self@[session_id@].config.port_name && info.state == self@[session_id@].state
                && info.config == self@[session_id@].config && info.stats == self@[session_id@].stats
                && info.has_connection == (self@[session_id@].connection is Some)
                && info.idle_seconds == whole_seconds_between(now, self@[session_id@].last_accessed)
                && info.age_seconds == whole_seconds_between(now, self@[session_id@].created_at)),
    {
        match self.sessions.get(session_id) {
            Some(s) => Ok(s.info_at(now)),
            None => Err(SerialError::SessionNotFound(owned(session_id))),
        }
    }

    /// Get session information.
    pub fn get_session_info(&self, session_id: &str) -> (r: Result<SessionInfo, SerialError>)
        requires
            self.wf(),
        ensures
            !self@.contains_key(session_id@) ==> (r matches Err(SerialError::SessionNotFound(m)) && m@ == session_id@),
            self@.contains_key(session_id@) ==> (r matches Ok(info) && info.session_id@ == session_id@
                && info.port_name == self@[session_id@].config.port_name && info.state == self@[session_id@].state
                && info.config == self@[session_id@].config && info.stats == self@[session_id@].stats
                && info.has_connection == (self@[session_id@].connection is Some)),
    {
        let t = super::session::now();
        self.get_session_info_at(session_id, t)
    }

    /// Information on every session (in creation order), at time `now`;
    /// with a port name, only on the sessions of that port.
    #[verifier::spinoff_prover]
    pub fn list_sessions_filtered_at(&self, port_name: Option<&str>, now: Timestamp) -> (r: Vec<SessionInfo>)
        requires
            self.wf(),
            now.is_valid(),
        ensures
            r@.len() <= self@.len(),
            port_name is None ==> r@.len() == self@.len(),
            forall|i: int| 0 <= i < r@.len() ==> self@.contains_key(#[trigger] r@[i].session_id@)
                && describes_session(r@[i], self@[r@[i].session_id@], now)
                && (port_name matches Some(p) ==> r@[i].port_name@ == p@),
            forall|k: Seq<char>| #[trigger] self@.contains_key(k) && (port_name matches Some(p) ==> self@[k].config.port_name@ == p@)
                ==> exists|i: int| 0 <= i < r@.len() && r@[i].session_id@ == k,
    {
        proof {
            self.sessions.lemma_positions();
        }
        let n = self.sessions.len();
        let mut out: Vec<SessionInfo> = Vec::new();
        let mut i: usize = 0;
        while i < n
            invariant
                self.wf(),
                n == self.sessions.key_order().len(),
                n == self.sessions@.len(),
                i <= n,
                out@.len() <= i,
                now.is_valid(),
                port_name is None ==> out@.len() == i,
                forall|j: int| 0 <= j < out@.len() ==> self.sessions@.contains_key(#[trigger] out@[j].session_id@)
                    && describes_session(out@[j], self.sessions@[out@[j].session_id@], now)
                    && (port_name matches Some(p) ==> out@[j].port_name@ == p@),
                forall|j: int| 0 <= j < i && #[trigger] on_port(port_name, self.sessions@[self.sessions.key_order()[j]])
                    ==> exists|m: int| 0 <= m < out@.len() && out@[m].session_id@ == self.sessions.key_order()[j],
            decreases n - i,
        {
            proof {
                self.sessions.lemma_positions();
            }
            let ghost old_out = out@;
            let s = self.sessions.value_at(i);
            let keep = match port_name {
                Some(p) => crate::registry::string_equals(&s.config.port_name, p),
                None => true,
            };
            if keep {
                proof {
                    assert(self.sessions@.contains_key(self.sessions.key_order()[i as int]));
                }
                let info = s.info_at(now);
                out.push(info);
                proof {
                    let last = out@.len() - 1;
                    assert(out@[last].session_id@ == self.sessions.key_order()[i as int]);
                    assert(self.sessions@[self.sessions.key_order()[i as int]] == *s);
                    assert(describes_session(out@[last], self.sessions@[out@[last].session_id@], now));
                    assert forall|j: int| 0 <= j < out@.len() implies self.sessions@.contains_key(#[trigger] out@[j].session_id@)
                        && describes_session(out@[j], self.sessions@[out@[j].session_id@], now)
                        && (port_name matches Some(p) ==> out@[j].port_name@ == p@) by {
                        if j < last {
                            assert(out@[j] == old_out[j]);
                        }
                    }
                }
            } else {
                assert(out@ == old_out);
                assert(forall|j: int| 0 <= j < out@.len() ==> self.sessions@.contains_key(#[trigger] out@[j].session_id@)
                    && describes_session(out@[j], self.sessions@[out@[j].session_id@], now)
                    && (port_name matches Some(p) ==> out@[j].port_name@ == p@));
            }
            proof {
                assert forall|j: int| 0 <= j < i + 1 && #[trigger] on_port(port_name, self.sessions@[self.sessions.key_order()[j]])
                    implies exists|m: int| 0 <= m < out@.len() && out@[m].session_id@ == self.sessions.key_order()[j] by {
                    if j < i {
                        let m = choose|m: int| 0 <= m < old_out.len() && old_out[m].session_id@ == self.sessions.key_order()[j];
                        assert(out@[m] == old_out[m]);
                    } else {
                        let last = out@.len() - 1;
                        assert(out@[last].session_id@ == self.sessions.key_order()[i as int]);
                    }
                }
            }
            i = i + 1;
        }
        proof {
            assert forall|k: Seq<char>| #[trigger] self.sessions@.contains_key(k) && (port_name matches Some(p) ==> self.sessions@[k].config.port_name@ == p@)
                implies exists|m: int| 0 <= m < out@.len() && out@[m].session_id@ == k by {
                let j = choose|j: int| 0 <= j < self.sessions.key_order().len() && self.sessions.key_order()[j] == k;
                assert(on_port(port_name, self.sessions@[self.sessions.key_order()[j]]));
            }
        }
        out
    }

    /// List all sessions.
    pub fn list_sessions(&self) -> (r: Vec<SessionInfo>)
        requires
            self.wf(),
        ensures
            r@.len() == self@.len(),
            forall|i: int| 0 <= i < r@.len() ==> self@.contains_key(#[trigger] r@[i].session_id@),
            forall|k: Seq<char>| #[trigger] self@.contains_key(k) ==> exists|i: int| 0 <= i < r@.len() && r@[i].session_id@ == k,
            exists|t: Timestamp| t.is_valid() && t.secs >= 0 && forall|i: int| 0 <= i < r@.len() ==> describes_session(
                #[trigger] r@[i],
                self@[r@[i].session_id@],
                t,
            ),
    {
        let t = super::session::now();
        let r = self.list_sessions_filtered_at(None, t);
        assert(forall|i: int| 0 <= i < r@.len() ==> describes_session(#[trigger] r@[i], self@[r@[i].session_id@], t));
        r
    }

    /// List sessions for a specific port.
    pub fn list_sessions_for_port(&self, port_name: &str) -> (r: Vec<SessionInfo>)
        requires
            self.wf(),
        ensures
            forall|i: int| 0 <= i < r@.len() ==> self@.contains_key(#[trigger] r@[i].session_id@) && r@[i].port_name@ == port_name@,
            forall|k: Seq<char>| #[trigger] self@.contains_key(k) && self@[k].config.port_name@ == port_name@
                ==> exists|i: int| 0 <= i < r@.len() && r@[i].session_id@ == k,
            exists|t: Timestamp| t.is_valid() && t.secs >= 0 && forall|i: int| 0 <= i < r@.len() ==> describes_session(
                #[trigger] r@[i],
                self@[r@[i].session_id@],
                t,
            ),
    {
        let t = super::session::now();
        let r = self.list_sessions_filtered_at(Some(port_name), t);
        assert(forall|i: int| 0 <= i < r@.len() ==> describes_session(#[trigger] r@[i], self@[r@[i].session_id@], t));
        assert forall|i: int| 0 <= i < r@.len() implies self@.contains_key(#[trigger] r@[i].session_id@) && r@[i].port_name@ == port_name@ by {
            assert(self@.contains_key(r@[i].session_id@));
        }
        r
    }
}

impl<C> SessionManager<C> {
    /// Get session connection for data operations; the access is recorded.
    pub fn get_session_connection(&mut self, session_id: &str) -> (r: Result<&C, SerialError>)
        requires
            old(self).wf(),
        ensures
            final(self).wf(),
            final(self).settings() == old(self).settings(),
            !old(self)@.contains_key(session_id@) ==> (r matches Err(SerialError::SessionNotFound(m)) && m@
                == session_id@) && final(self)@ == old(self)@,
            old(self)@.contains_key(session_id@) ==> {
                let (o, n) = (old(self)@[session_id@], final(self)@[session_id@]);
                &&& others_unchanged(old(self)@, final(self)@, session_id@)
                &&& same_identity(o, n)
                &&& n.connection == o.connection
                &&& n.state == o.state
                &&& n.stats == o.stats
                &&& n.reconnect_attempts == o.reconnect_attempts
            },
            old(self)@.contains_key(session_id@) && old(self)@[session_id@].connection is None ==> (r matches Err(
                SerialError::InvalidConnection(m),
            ) && m@ == not_connected_text()),
            old(self)@.contains_key(session_id@) && old(self)@[session_id@].connection is Some ==> (r matches Ok(c)
                && Some(*c) == old(self)@[session_id@].connection),
    {
        proof {
            self.sessions.lemma_positions();
        }
        let ghost before = self.sessions@;
        match self.take_session(session_id) {
            None => Err(SerialError::SessionNotFound(owned(session_id))),
            Some((i, key, mut s)) => {
                s.touch();
                self.put_session(i, key, s);
                assert(self.sessions@.dom() =~= before.dom());
                match self.sessions.get(session_id) {
                    Some(s) => match s.get_connection() {
                        Some(c) => Ok(c),
                        None => Err(SerialError::InvalidConnection(owned(not_connected_str()))),
                    },
                    None => Err(SerialError::SessionNotFound(owned(session_id))),
                }
            },
        }
    }

    /// Record data sent for a session.
    pub fn record_session_send(&mut self, session_id: &str, bytes: usize) -> (r: Result<(), SerialError>)
        requires
            old(self).wf(),
            old(self)@.contains_key(session_id@) ==> old(self)@[session_id@].stats.bytes_sent + bytes <= u64::MAX
                && old(self)@[session_id@].stats.messages_sent < u64::MAX,
        ensures
            final(self).wf(),
            final(self).settings() == old(self).settings(),
            !old(self)@.contains_key(session_id@) ==> (r matches Err(SerialError::SessionNotFound(m)) && m@
                == session_id@) && final(self)@ == old(self)@,
            old(self)@.contains_key(session_id@) ==> {
                let (o, n) = (old(self)@[session_id@], final(self)@[session_id@]);
                &&& r is Ok
                &&& others_unchanged(old(self)@, final(self)@, session_id@)
                &&& same_identity(o, n)
                &&& n.stats.bytes_sent == o.stats.bytes_sent + bytes
                &&& n.stats.messages_sent == o.stats.messages_sent + 1
                &&& n.stats.bytes_received == o.stats.bytes_received
                &&& n.stats.messages_received == o.stats.messages_received
                &&& n.stats.errors_count == o.stats.errors_count
                &&& n.stats.reconnections == o.stats.reconnections
                &&& n.stats.last_activity is Some
                &&& n.state == o.state
                &&& n.connection == o.connection
                &&& n.reconnect_attempts == o.reconnect_attempts
            },
    {
        proof {
            self.sessions.lemma_positions();
        }
        let ghost before = self.sessions@;
        match self.take_session(session_id) {
            None => Err(SerialError::SessionNotFound(owned(session_id))),
            Some((i, key, mut s)) => {
                s.record_send(bytes);
                self.put_session(i, key, s);
                assert(self.sessions@.dom() =~= before.dom());
                Ok(())
            },
        }
    }

    /// Record data received for a session.
    pub fn record_session_receive(&mut self, session_id: &str, bytes: usize) -> (r: Result<(), SerialError>)
        requires
            old(self).wf(),
            old(self)@.contains_key(session_id@) ==> old(self)@[session_id@].stats.bytes_received + bytes
                <= u64::MAX && old(self)@[session_id@].stats.messages_received < u64::MAX,
        ensures
            final(self).wf(),
            final(self).settings() == old(self).settings(),
            !old(self)@.contains_key(session_id@) ==> (r matches Err(SerialError::SessionNotFound(m)) && m@
                == session_id@) && final(self)@ == old(self)@,
            old(self)@.contains_key(session_id@) ==> {
                let (o, n) = (old(self)@[session_id@], final(self)@[session_id@]);
                &&& r is Ok
                &&& others_unchanged(old(self)@, final(self)@, session_id@)
                &&& same_identity(o, n)
                &&& n.stats.bytes_received == o.stats.bytes_received + bytes
                &&& n.stats.messages_received == o.stats.messages_received + 1
                &&& n.stats.bytes_sent == o.stats.bytes_sent
                &&& n.stats.messages_sent == o.stats.messages_sent
                &&& n.stats.errors_count == o.stats.errors_count
                &&& n.stats.reconnections == o.stats.reconnections
                &&& n.stats.last_activity is Some
                &&& n.state == o.state
                &&& n.connection == o.connection
                &&& n.reconnect_attempts == o.reconnect_attempts
            },
    {
        proof {
            self.sessions.lemma_positions();
        }
        let ghost before = self.sessions@;
        match self.take_session(session_id) {
            None => Err(SerialError::SessionNotFound(owned(session_id))),
            Some((i, key, mut s)) => {
                s.record_receive(bytes);
                self.put_session(i, key, s);
                assert(self.sessions@.dom() =~= before.dom());
                Ok(())
            },
        }
    }

    /// Handle a session error: the session goes to the error state; when it
    /// reconnects automatically and has attempts left, it goes back to
    /// Creating and one more attempt is counted.
    pub fn handle_session_error(&mut self, session_id: &str, error: String) -> (r: Result<(), SerialError>)
        requires
            old(self).wf(),
            old(self)@.contains_key(session_id@) ==> old(self)@[session_id@].stats.errors_count < u64::MAX
                && old(self)@[session_id@].stats.reconnections < u32::MAX,
        ensures
            final(self).wf(),
            final(self).settings() == old(self).settings(),
            !old(self)@.contains_key(session_id@) ==> (r matches Err(SerialError::SessionNotFound(m)) && m@
                == session_id@) && final(self)@ == old(self)@,
            old(self)@.contains_key(session_id@) ==> {
                let (o, n) = (old(self)@[session_id@], final(self)@[session_id@]);
                &&& r is Ok
                &&& others_unchanged(old(self)@, final(self)@, session_id@)
                &&& same_identity(o, n)
                &&& n.stats.errors_count == o.stats.errors_count + 1
                &&& n.stats.bytes_sent == o.stats.bytes_sent
                &&& n.stats.bytes_received == o.stats.bytes_received
                &&& n.stats.messages_sent == o.stats.messages_sent
                &&& n.stats.messages_received == o.stats.messages_received
                &&& n.stats.reconnections == o.stats.reconnections + (if o.config.auto_reconnect
                    && o.reconnect_attempts < o.config.max_reconnect_attempts { 1int } else { 0int })
                &&& n.connection == o.connection
            },
            old(self)@.contains_key(session_id@) && old(self)@[session_id@].config.auto_reconnect
                && old(self)@[session_id@].reconnect_attempts < old(self)@[session_id@].config.max_reconnect_attempts
                ==> final(self)@[session_id@].state == SessionState::Creating
                && final(self)@[session_id@].reconnect_attempts == old(self)@[session_id@].reconnect_attempts + 1,
            old(self)@.contains_key(session_id@) && !(old(self)@[session_id@].config.auto_reconnect
                && old(self)@[session_id@].reconnect_attempts < old(self)@[session_id@].config.max_reconnect_attempts)
                ==> final(self)@[session_id@].state == SessionState::Error(error)
                && final(self)@[session_id@].reconnect_attempts == old(self)@[session_id@].reconnect_attempts,
    {
        proof {
            self.sessions.lemma_positions();
        }
        let ghost before = self.sessions@;
        match self.take_session(session_id) {
            None => Err(SerialError::SessionNotFound(owned(session_id))),
            Some((i, key, mut s)) => {
                s.set_error(error);
                if s.config.auto_reconnect && s.attempt_reconnect() {
                    s.set_state(SessionState::Creating);
                }
                self.put_session(i, key, s);
                assert(self.sessions@.dom() =~= before.dom());
                Ok(())
            },
        }
    }

    /// Get session count.
    pub fn session_count(&self) -> (r: usize)
        requires
            self.wf(),
        ensures
            r == self@.len(),
    {
        self.sessions.len()
    }

    /// Get active session count.
    pub fn active_session_count(&self) -> (r: usize)
        requires
            self.wf(),
        ensures
            r == count_where(self.ordered(), |s: SerialSession<C>| s.state is Active),
    {
        self.get_stats_counts().1
    }

    /// Counts of all, active, connected and failed sessions.
    fn get_stats_counts(&self) -> (r: (usize, usize, usize, usize))
        requires
            self.wf(),
        ensures
            r.0 == self@.len(),
            r.1 == count_where(self.ordered(), |s: SerialSession<C>| s.state is Active),
            r.2 == count_where(self.ordered(), |s: SerialSession<C>| s.connection is Some),
            r.3 == count_where(self.ordered(), |s: SerialSession<C>| s.state is Error),
    {
        proof {
            self.sessions.lemma_positions();
        }
        let n = self.sessions.len();
        let mut active: usize = 0;
        let mut connected: usize = 0;
        let mut failed: usize = 0;
        let mut i: usize = 0;
        while i < n
            invariant
                self.wf(),
                n == self.sessions.key_order().len(),
                n == self.ordered().len(),
                i <= n,
                active == count_where(self.ordered().take(i as int), |s: SerialSession<C>| s.state is Active),
                connected == count_where(self.ordered().take(i as int), |s: SerialSession<C>| s.connection is Some),
                failed == count_where(self.ordered().take(i as int), |s: SerialSession<C>| s.state is Error),
                active <= i && connected <= i && failed <= i,
            decreases n - i,
        {
            let s = self.sessions.value_at(i);
            proof {
                assert(self.ordered().take(i + 1).drop_last() =~= self.ordered().take(i as int));
                assert(self.ordered().take(i + 1).last() == *s);
            }
            if s.is_active() {
                active = active + 1;
            }
            if s.has_connection() {
                connected = connected + 1;
            }
            if let SessionState::Error(_) = s.state {
                failed = failed + 1;
            }
            i = i + 1;
        }
        assert(self.ordered().take(n as int) =~= self.ordered());
        (n, active, connected, failed)
    }

    /// Get manager statistics.
    pub fn get_stats(&self) -> (r: SessionManagerStats)
        requires
            self.wf(),
            sum_of(self.ordered(), |s: SerialSession<C>| s.stats.bytes_sent) <= u64::MAX,
            sum_of(self.ordered(), |s: SerialSession<C>| s.stats.bytes_received) <= u64::MAX,
            sum_of(self.ordered(), |s: SerialSession<C>| s.stats.messages_sent) <= u64::MAX,
            sum_of(self.ordered(), |s: SerialSession<C>| s.stats.messages_received) <= u64::MAX,
        ensures
            r.total_sessions == self@.len(),
            r.active_sessions == count_where(self.ordered(), |s: SerialSession<C>| s.state is Active),
            r.connected_sessions == count_where(self.ordered(), |s: SerialSession<C>| s.connection is Some),
            r.error_sessions == count_where(self.ordered(), |s: SerialSession<C>| s.state is Error),
            r.total_bytes_sent == sum_of(self.ordered(), |s: SerialSession<C>| s.stats.bytes_sent),
            r.total_bytes_received == sum_of(self.ordered(), |s: SerialSession<C>| s.stats.bytes_received),
            r.total_messages_sent == sum_of(self.ordered(), |s: SerialSession<C>| s.stats.messages_sent),
            r.total_messages_received == sum_of(self.ordered(), |s: SerialSession<C>| s.stats.messages_received),
    {
        let (total, active, connected, failed) = self.get_stats_counts();
        proof {
            self.sessions.lemma_positions();
        }
        let n = self.sessions.len();
        let mut bs: u64 = 0;
        let mut br: u64 = 0;
        let mut ms: u64 = 0;
        let mut mr: u64 = 0;
        let mut i: usize = 0;
        while i < n
            invariant
                self.wf(),
                n == self.sessions.key_order().len(),
                n == self.ordered().len(),
                i <= n,
                sum_of(self.ordered(), |s: SerialSession<C>| s.stats.bytes_sent) <= u64::MAX,
                sum_of(self.ordered(), |s: SerialSession<C>| s.stats.bytes_received) <= u64::MAX,
                sum_of(self.ordered(), |s: SerialSession<C>| s.stats.messages_sent) <= u64::MAX,
                sum_of(self.ordered(), |s: SerialSession<C>| s.stats.messages_received) <= u64::MAX,
                bs == sum_of(self.ordered().take(i as int), |s: SerialSession<C>| s.stats.bytes_sent),
                br == sum_of(self.ordered().take(i as int), |s: SerialSession<C>| s.stats.bytes_received),
                ms == sum_of(self.ordered().take(i as int), |s: SerialSession<C>| s.stats.messages_sent),
                mr == sum_of(self.ordered().take(i as int), |s: SerialSession<C>| s.stats.messages_received),
            decreases n - i,
        {
            let s = self.sessions.value_at(i);
            proof {
                assert(self.ordered().take(i + 1).drop_last() =~= self.ordered().take(i as int));
                assert(self.ordered().take(i + 1).last() == *s);
                lemma_sum_prefix(self.ordered(), |s: SerialSession<C>| s.stats.bytes_sent, i + 1);
                lemma_sum_prefix(self.ordered(), |s: SerialSession<C>| s.stats.bytes_received, i + 1);
                lemma_sum_prefix(self.ordered(), |s: SerialSession<C>| s.stats.messages_sent, i + 1);
                lemma_sum_prefix(self.ordered(), |s: SerialSession<C>| s.stats.messages_received, i + 1);
            }
            bs = bs + s.stats.bytes_sent;
            br = br + s.stats.bytes_received;
            ms = ms + s.stats.messages_sent;
            mr = mr + s.stats.messages_received;
            i = i + 1;
        }
        assert(self.ordered().take(n as int) =~= self.ordered());
        SessionManagerStats {
            total_sessions: total,
            active_sessions: active,
            connected_sessions: connected,
            error_sessions: failed,
            total_bytes_sent: bs,
            total_bytes_received: br,
            total_messages_sent: ms,
            total_messages_received: mr,
        }
    }

}

/// The session counts as idle at `now` and is not active: cleanup removes it.
pub open spec fn is_stale<C>(s: SerialSession<C>, now: Timestamp, max_idle_seconds: i64) -> bool {
    whole_seconds_between(now, s.last_accessed) > max_idle_seconds && !(s.state is Active)
}

/// The keys of `keys`, in order, whose sessions in `m` are stale.
pub open spec fn stale_keys<C>(keys: Seq<Seq<char>>, m: Map<Seq<char>, SerialSession<C>>, now: Timestamp, max_idle_seconds: i64) -> Seq<Seq<char>>
    decreases keys.len(),
{
    if keys.len() == 0 {
        Seq::empty()
    } else if is_stale(m[keys.last()], now, max_idle_seconds) {
        stale_keys(keys.drop_last(), m, now, max_idle_seconds).push(keys.last())
    } else {
        stale_keys(keys.drop_last(), m, now, max_idle_seconds)
    }
}

proof fn lemma_stale_keys<C>(keys: Seq<Seq<char>>, m: Map<Seq<char>, SerialSession<C>>, now: Timestamp, max_idle_seconds: i64)
    ensures
        forall|k: Seq<char>| #[trigger] stale_keys(keys, m, now, max_idle_seconds).contains(k) <==> keys.contains(k)
            && is_stale(m[k], now, max_idle_seconds),
    decreases keys.len(),
{
    if keys.len() > 0 {
        lemma_stale_keys(keys.drop_last(), m, now, max_idle_seconds);
        let d = stale_keys(keys.drop_last(), m, now, max_idle_seconds);
        assert forall|k: Seq<char>| #[trigger] stale_keys(keys, m, now, max_idle_seconds).contains(k) <==> keys.contains(k)
            && is_stale(m[k], now, max_idle_seconds) by {
            if keys.contains(k) && is_stale(m[k], now, max_idle_seconds) {
                let i = choose|i: int| 0 <= i < keys.len() && keys[i] == k;
                if i < keys.len() - 1 {
                    assert(keys.drop_last()[i] == k);
                    assert(d.contains(k));
                    if is_stale(m[keys.last()], now, max_idle_seconds) {
                        let j = choose|j: int| 0 <= j < d.len() && d[j] == k;
                        assert(d.push(keys.last())[j] == k);
                    }
                } else {
                    assert(d.push(keys.last())[d.len() as int] == k);
                }
            }
            if stale_keys(keys, m, now, max_idle_seconds).contains(k) {
                if is_stale(m[keys.last()], now, max_idle_seconds) && k == keys.last() {
                    assert(keys[keys.len() - 1] == k);
                } else {
                    let j = choose|j: int| 0 <= j < stale_keys(keys, m, now, max_idle_seconds).len()
                        && stale_keys(keys, m, now, max_idle_seconds)[j] == k;
                    if is_stale(m[keys.last()], now, max_idle_seconds) && j == d.len() {
                        assert(k == keys.last());
                        assert(keys[keys.len() - 1] == k);
                    } else {
                        assert(d[j] == k);
                        assert(d.contains(k));
                        let i = choose|i: int| 0 <= i < keys.drop_last().len() && keys.drop_last()[i] == k;
                        assert(keys[i] == k);
                    }
                }
            }
        }
    }
}

/// `after` keeps exactly the sessions of `before` that are not stale at
/// `now`, unchanged, and holds no others.
pub open spec fn stale_removed<C>(
    before: Map<Seq<char>, SerialSession<C>>,
    after: Map<Seq<char>, SerialSession<C>>,
    now: Timestamp,
    max_idle_seconds: i64,
) -> bool {
    &&& forall|k: Seq<char>| #[trigger] before.contains_key(k) ==> (after.contains_key(k)
        <==> !is_stale(before[k], now, max_idle_seconds))
    &&& forall|k: Seq<char>| #[trigger] after.contains_key(k) ==> before.contains_key(k) && after[k] == before[k]
}

/// Cleanup never removes an active session, nor one idle for no longer
/// than the limit: whatever `now` and the limit are, each such session of
/// `before` is still in `after`, unchanged.
pub proof fn lemma_cleanup_keeps_active<C>(
    before: Map<Seq<char>, SerialSession<C>>,
    after: Map<Seq<char>, SerialSession<C>>,
    now: Timestamp,
    max_idle_seconds: i64,
)
    requires
        stale_removed(before, after, now, max_idle_seconds),
    ensures
        forall|k: Seq<char>| #[trigger] before.contains_key(k) && (before[k].state is Active
            || whole_seconds_between(now, before[k].last_accessed) <= max_idle_seconds)
            ==> after.contains_key(k) && after[k] == before[k],
{
}

impl<C> SessionManager<C> {
    /// Cleanup idle sessions at time `now`: every session idle for more than
    /// `max_idle_seconds` and not active is removed and closed. The
    /// identifiers removed are given back, in creation order.
    pub fn cleanup_idle_sessions_at(&mut self, now: Timestamp, max_idle_seconds: i64) -> (r: Vec<String>)
        requires
            old(self).wf(),
            now.is_valid(),
        ensures
            final(self).wf(),
            final(self).settings() == old(self).settings(),
            stale_removed(old(self)@, final(self)@, now, max_idle_seconds),
            r@.map_values(|s: String| s@) == stale_keys(old(self).id_order(), old(self)@, now, max_idle_seconds),
            // Active sessions, and those idle no longer than the limit, stay as they were.
            forall|k: Seq<char>| #[trigger] old(self)@.contains_key(k) && (old(self)@[k].state is Active
                || whole_seconds_between(now, old(self)@[k].last_accessed) <= max_idle_seconds)
                ==> final(self)@.contains_key(k) && final(self)@[k] == old(self)@[k],
    {
        proof {
            self.sessions.lemma_positions();
        }
        let ghost keys = self.sessions.key_order();
        let ghost start = self.sessions@;
        let n = self.sessions.len();
        let mut doomed: Vec<String> = Vec::new();
        let mut i: usize = 0;
        while i < n
            invariant
                self.wf(),
                self.sessions@ == start,
                self.sessions.key_order() == keys,
                now.is_valid(),
                n == keys.len(),
                i <= n,
                doomed@.map_values(|s: String| s@) == stale_keys(keys.take(i as int), start, now, max_idle_seconds),
            decreases n - i,
        {
            proof {
                self.sessions.lemma_positions();
                assert(keys.take(i + 1).drop_last() =~= keys.take(i as int));
                assert(keys.take(i + 1).last() == keys[i as int]);
            }
            proof {
                assert(self.sessions@.contains_key(keys[i as int]));
            }
            let s = self.sessions.value_at(i);
            let idle = s.idle_seconds_at(now) > max_idle_seconds;
            if idle && !s.is_active() {
                let k = self.sessions.key_at(i).clone();
                doomed.push(k);
            }
            proof {
                assert(doomed@.map_values(|s: String| s@) =~= stale_keys(keys.take(i + 1), start, now, max_idle_seconds));
            }
            i = i + 1;
        }
        assert(keys.take(n as int) =~= keys);
        let ghost all = doomed@.map_values(|s: String| s@);
        let mut j: usize = 0;
        while j < doomed.len()
            invariant
                self.wf(),
                self.config == old(self).config,
                j <= doomed@.len(),
                all == doomed@.map_values(|s: String| s@),
                self.sessions@ == start.remove_keys(all.take(j as int).to_set()),
            decreases doomed@.len() - j,
        {
            let _ = self.remove_session(doomed[j].as_str());
            proof {
                lemma_take_to_set(all, j as int);
                assert(self.sessions@ =~= start.remove_keys(all.take(j + 1).to_set()));
            }
            j = j + 1;
        }
        proof {
            assert(all.take(doomed@.len() as int) =~= all);
            lemma_stale_keys(keys, start, now, max_idle_seconds);
            old(self).sessions.lemma_positions();
            assert forall|k: Seq<char>| #[trigger] old(self)@.contains_key(k) implies (self.sessions@.contains_key(k)
                <==> !is_stale(old(self)@[k], now, max_idle_seconds)) by {
                let i = choose|i: int| 0 <= i < keys.len() && keys[i] == k;
                assert(keys.contains(k));
                assert(all.to_set().contains(k) <==> all.contains(k));
            }
        }
        doomed
    }

    /// The idle time, in seconds, after which cleanup removes an inactive
    /// session: the configured connection timeout.
    pub fn max_idle_seconds(&self) -> (r: i64)
        ensures
            r == self.settings().server.connection_timeout_seconds as i64,
    {
        self.config.server.connection_timeout_seconds as i64
    }

    /// Cleanup idle sessions: the clock is read once for all of them.
    pub fn cleanup_idle_sessions(&mut self, max_idle_seconds: i64) -> (r: Vec<String>)
        requires
            old(self).wf(),
        ensures
            final(self).wf(),
            final(self).settings() == old(self).settings(),
            exists|now: Timestamp| now.is_valid() && stale_removed(old(self)@, final(self)@, now, max_idle_seconds),
            forall|k: Seq<char>| #[trigger] old(self)@.contains_key(k) && old(self)@[k].state is Active
                ==> final(self)@.contains_key(k) && final(self)@[k] == old(self)@[k],
    {
        let now = super::session::now();
        let r = self.cleanup_idle_sessions_at(now, max_idle_seconds);
        proof {
            lemma_cleanup_keeps_active(old(self)@, self@, now, max_idle_seconds);
        }
        assert(now.is_valid() && stale_removed(old(self)@, self@, now, max_idle_seconds));
        r
    }
}

proof fn lemma_take_to_set(s: Seq<Seq<char>>, j: int)
    requires
        0 <= j < s.len(),
    ensures
        s.take(j + 1).to_set() == s.take(j).to_set().insert(s[j]),
{
    let a = s.take(j + 1);
    let b = s.take(j);
    assert forall|x: Seq<char>| a.to_set().contains(x) <==> b.to_set().insert(s[j]).contains(x) by {
        if a.contains(x) {
            let i = choose|i: int| 0 <= i < a.len() && #[trigger] a[i] == x;
            if i < j {
                assert(b[i] == x);
            }
        }
        if b.contains(x) {
            let i = choose|i: int| 0 <= i < b.len() && #[trigger] b[i] == x;
            assert(a[i] == x);
        }
        if x == s[j] {
            assert(s.take(j + 1)[j] == x);
        }
    }
    assert(s.take(j + 1).to_set() =~= s.take(j).to_set().insert(s[j]));
}

proof fn lemma_sum_prefix<C>(s: Seq<SerialSession<C>>, f: spec_fn(SerialSession<C>) -> u64, i: int)
    requires
        0 <= i <= s.len(),
    ensures
        sum_of(s.take(i), f) <= sum_of(s, f),
    decreases s.len(),
{
    if i < s.len() {
        assert(s.drop_last().take(i) =~= s.take(i));
        lemma_sum_prefix(s.drop_last(), f, i);
    } else {
        assert(s.take(i) =~= s);
    }
}

/// The manager never holds more sessions than the configured connection limit.
pub proof fn lemma_session_limit<C>(m: &SessionManager<C>)
    requires
        m.wf(),
    ensures
        m@.len() <= m.settings().server.max_connections,
{
    m.lemma_wf();
}

} // verus!
