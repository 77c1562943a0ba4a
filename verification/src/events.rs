//! The event taxonomy: the tagged union carried across the dispatcher to
//! event-loop boundary, and the payload records it transports.

use vstd::prelude::*;

verus! {

/// The metadata record exchanged once per connection by the identification
/// handler: the peer's agent string, its public key, and the addresses it
/// believes it listens on.
#[derive(Clone, Debug, PartialEq, Eq)]
pub struct IdentifyRecord {
    pub agent: Vec<u8>,
    pub public_key: Vec<u8>,
    pub listen_addrs: Vec<Vec<u8>>,
}

/// The outcome of one liveness probe: a round-trip time in milliseconds,
/// or a missed response.
#[derive(Clone, Copy, Debug, PartialEq, Eq)]
pub enum ProbeOutcome {
    Rtt(u64),
    Failed,
}

/// The unit exchanged across the dispatcher to event-loop boundary. Exactly
/// one variant is active per instance, and the tag fully determines which
/// payload fields are valid.
#[derive(Clone, Debug, PartialEq, Eq)]
pub enum Event {
    /// Transport-level: a concrete local listening address was bound.
    NewListenAddr { addr: Vec<u8> },
    /// Transport-level: the connection was closed and removed from every
    /// handler's bookkeeping.
    ConnectionClosed { conn: usize },
    /// Discovery: a presence announcement was observed on the local network,
    /// carrying the announcing peer's identifier and one of its addresses.
    Discovered { peer: Vec<u8>, addr: Vec<u8> },
    /// Identification: the peer's metadata record arrived on the dedicated
    /// stream of this connection.
    IdentifyReceived { conn: usize, record: IdentifyRecord },
    /// Identification: the peer did not answer within the bounded window.
    IdentifyTimeout { conn: usize },
    /// Liveness: one probe on this connection finished.
    LivenessResult { conn: usize, outcome: ProbeOutcome },
}

/// Which connection, if any, an event refers to. Listening addresses and
/// discovery observations are not tied to any connection.
pub open spec fn event_conn(e: Event) -> Option<usize> {
    match e {
        Event::NewListenAddr { .. } => None,
        Event::ConnectionClosed { conn } => Some(conn),
        Event::Discovered { .. } => None,
        Event::IdentifyReceived { conn, .. } => Some(conn),
        Event::IdentifyTimeout { conn } => Some(conn),
        Event::LivenessResult { conn, .. } => Some(conn),
    }
}

/// Whether an event refers to the connection with identifier `id`.
pub open spec fn refs_conn(e: Event, id: usize) -> bool {
    event_conn(e) == Some::<usize>(id)
}

/// Executable counterpart of `refs_conn`.
pub fn event_refers_to(e: &Event, id: usize) -> (r: bool)
    ensures
        r == refs_conn(*e, id),
{
    match e {
        Event::ConnectionClosed { conn } => *conn == id,
        Event::IdentifyReceived { conn, .. } => *conn == id,
        Event::IdentifyTimeout { conn } => *conn == id,
        Event::LivenessResult { conn, .. } => *conn == id,
        _ => false,
    }
}

} // verus!
