//! Serial connections: line settings, connection errors, port descriptions
//! and the registry of open connections.

pub mod connection;
pub mod error;
pub mod port;

pub use connection::{ConnectionConfig, DataBits, FlowControl, Parity, StopBits};
pub use error::SerialError as LocalSerialError;
pub use port::{FoundPort, PortInfo, PortKind};

use vstd::prelude::*;
use crate::registry::Registry;
use error::SerialError;

verus! {

/// An open connection and the port it holds.
#[derive(Debug)]
pub struct ConnectionRecord<C> {
    pub port: String,
    pub connection: C,
}

/// The open connections by identifier. At most one connection holds a port.
#[derive(Debug)]
pub struct ConnectionManager<C> {
    connections: Registry<ConnectionRecord<C>>,
}

/// No two connections of the map hold the same port.
pub open spec fn ports_exclusive<C>(m: Map<Seq<char>, ConnectionRecord<C>>) -> bool {
    forall|a: Seq<char>, b: Seq<char>|
        #[trigger] m.contains_key(a) && #[trigger] m.contains_key(b) && a != b ==> m[a].port@ != m[b].port@
}

/// Some connection of the map holds `port`.
pub open spec fn port_held<C>(m: Map<Seq<char>, ConnectionRecord<C>>, port: Seq<char>) -> bool {
    exists|k: Seq<char>| #[trigger] m.contains_key(k) && m[k].port@ == port
}

impl<C> ConnectionManager<C> {
    /// The open connections by identifier.
    pub closed spec fn view(&self) -> Map<Seq<char>, ConnectionRecord<C>> {
        self.connections@
    }

    /// The order in which the connections were opened.
    pub closed spec fn id_order(&self) -> Seq<Seq<char>> {
        self.connections.key_order()
    }

    /// The registry is consistent and ports are held exclusively.
    pub closed spec fn wf(&self) -> bool {
        &&& self.connections.wf()
        &&& ports_exclusive(self.connections@)
    }

    /// Facts a well-formed manager offers its users.
    pub proof fn lemma_wf(&self)
        requires
            self.wf(),
        ensures
            ports_exclusive(self@),
            self.id_order().len() == self@.len(),
            self@.dom().finite(),
            forall|i: int| 0 <= i < self.id_order().len() ==> #[trigger] self@.contains_key(self.id_order()[i]),
    {
        self.connections.lemma_positions();
    }

    /// A manager without connections.
    pub fn new() -> (r: Self)
        ensures
            r.wf(),
            r@ == Map::<Seq<char>, ConnectionRecord<C>>::empty(),
    {
        ConnectionManager { connections: Registry::new() }
    }

    /// Number of open connections.
    pub fn len(&self) -> (r: usize)
        requires
            self.wf(),
        ensures
            r == self@.len(),
            r == self.id_order().len(),
    {
        self.connections.len()
    }

    /// Whether some open connection holds `port`.
    pub fn port_in_use(&self, port: &str) -> (r: bool)
        requires
            self.wf(),
        ensures
            r == port_held(self@, port@),
    {
        proof {
            self.connections.lemma_positions();
        }
        let n = self.connections.len();
        let mut i: usize = 0;
        while i < n
            invariant
                self.connections.wf(),
                n == self.connections.key_order().len(),
                i <= n,
                forall|j: int| 0 <= j < i ==> #[trigger] self.connections@[self.connections.key_order()[j]].port@ != port@,
            decreases n - i,
        {
            let rec = self.connections.value_at(i);
            if crate::registry::string_equals(&rec.port, port) {
                proof {
                    self.connections.lemma_positions();
                    assert(self.connections@.contains_key(self.connections.key_order()[i as int]));
                }
                return true;
            }
            i = i + 1;
        }
        proof {
            self.connections.lemma_positions();
            if port_held(self.connections@, port@) {
                let k = choose|k: Seq<char>| #[trigger] self.connections@.contains_key(k) && self.connections@[k].port@ == port@;
                let j = choose|j: int| 0 <= j < self.connections.key_order().len() && self.connections.key_order()[j] == k;
                assert(self.connections@[self.connections.key_order()[j]].port@ != port@);
            }
        }
        false
    }

    /// Registers an opened connection under its identifier, unless another
    /// connection holds its port.
    pub fn open(&mut self, id: String, port: String, connection: C) -> (r: Result<String, SerialError>)
        requires
            old(self).wf(),
        ensures
            final(self).wf(),
            port_held(old(self)@, port@) ==> (r matches Err(SerialError::ConnectionExists(p)) && p@ == port@),
            port_held(old(self)@, port@) ==> final(self)@ == old(self)@,
            !port_held(old(self)@, port@) ==> (r matches Ok(k) && k@ == id@),
            !port_held(old(self)@, port@) ==> final(self)@ == old(self)@.insert(id@, ConnectionRecord { port, connection }),
    {
        if self.port_in_use(port.as_str()) {
            return Err(SerialError::ConnectionExists(port));
        }
        let key = id.clone();
        let ghost old_map = self.connections@;
        self.connections.insert(id, ConnectionRecord { port, connection });
        proof {
            let m = self.connections@;
            assert forall|a: Seq<char>, b: Seq<char>|
                #[trigger] m.contains_key(a) && #[trigger] m.contains_key(b) && a != b implies m[a].port@ != m[b].port@ by {
                if a == key@ {
                    assert(old_map.contains_key(b));
                } else if b == key@ {
                    assert(old_map.contains_key(a));
                } else {
                    assert(old_map.contains_key(a) && old_map.contains_key(b));
                }
            }
        }
        Ok(key)
    }

    /// Forgets the connection with identifier `id`.
    pub fn close(&mut self, id: &str) -> (r: Result<C, SerialError>)
        requires
            old(self).wf(),
        ensures
            final(self).wf(),
            final(self)@ == old(self)@.remove(id@),
            old(self)@.contains_key(id@) ==> (r matches Ok(c) && c == old(self)@[id@].connection),
            !old(self)@.contains_key(id@) ==> (r matches Err(SerialError::InvalidConnection(m)) && m@ == id@),
    {
        match self.connections.remove(id) {
            Some(rec) => {
                proof {
                    let m = self.connections@;
                    assert forall|a: Seq<char>, b: Seq<char>|
                        #[trigger] m.contains_key(a) && #[trigger] m.contains_key(b) && a != b implies m[a].port@ != m[b].port@ by {
                        assert(old(self).connections@.contains_key(a) && old(self).connections@.contains_key(b));
                    }
                }
                Ok(rec.connection)
            },
            None => Err(SerialError::InvalidConnection(crate::text::owned(id))),
        }
    }

    /// The connection with identifier `id`.
    pub fn get(&self, id: &str) -> (r: Result<&C, SerialError>)
        requires
            self.wf(),
        ensures
            self@.contains_key(id@) ==> (r matches Ok(c) && *c == self@[id@].connection),
            !self@.contains_key(id@) ==> (r matches Err(SerialError::InvalidConnection(m)) && m@ == id@),
    {
        match self.connections.get(id) {
            Some(rec) => Ok(&rec.connection),
            None => Err(SerialError::InvalidConnection(crate::text::owned(id))),
        }
    }

    /// The connection opened `i`-th among those still open.
    pub fn connection_at(&self, i: usize) -> (r: &C)
        requires
            self.wf(),
            i < self.id_order().len(),
        ensures
            *r == self@[self.id_order()[i as int]].connection,
    {
        &self.connections.value_at(i).connection
    }
}

impl<C> Default for ConnectionManager<C> {
    fn default() -> (r: Self)
        ensures
            r.wf(),
            r@ == Map::<Seq<char>, ConnectionRecord<C>>::empty(),
    {
        Self::new()
    }
}

/// A connection manager never lets two connections hold one port.
pub proof fn lemma_ports_held_exclusively<C>(m: &ConnectionManager<C>)
    requires
        m.wf(),
    ensures
        ports_exclusive(m@),
{
    m.lemma_wf();
}

/// Closing a connection frees its port: no connection left holds it, so
/// the port can be opened again.
pub proof fn lemma_close_frees_port<C>(m: &ConnectionManager<C>, id: Seq<char>)
    requires
        m.wf(),
        m@.contains_key(id),
    ensures
        !port_held(m@.remove(id), m@[id].port@),
{
    m.lemma_wf();
    let rest = m@.remove(id);
    if port_held(rest, m@[id].port@) {
        let k = choose|k: Seq<char>| #[trigger] rest.contains_key(k) && rest[k].port@ == m@[id].port@;
        assert(m@.contains_key(k) && k != id);
    }
}

} // verus!
