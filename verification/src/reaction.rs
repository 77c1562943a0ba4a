//! The event loop's reaction logic: a fixed set of event kinds is reported
//! to the caller, every other kind is acknowledged and dropped. The loop
//! itself — polling the dispatcher and performing each reaction — is the
//! caller's side; the decision of what to do with each event is made here.

use vstd::prelude::*;
use crate::events::{Event, IdentifyRecord, ProbeOutcome};

verus! {

/// What the event loop does with one event: report it to its sink, or
/// ignore it. Unrecognized kinds are safely ignorable without disrupting
/// the stream.
pub enum Reaction {
    /// Report a freshly bound local listening address.
    ReportListenAddr { addr: Vec<u8> },
    /// Report a peer observed by discovery, with its identifier and address.
    ReportDiscovered { peer: Vec<u8>, addr: Vec<u8> },
    /// Report the identification exchange on a connection: the record the
    /// peer sent, or `None` when the exchange timed out.
    ReportIdentification { conn: usize, record: Option<IdentifyRecord> },
    /// Report one liveness measurement on a connection.
    ReportLiveness { conn: usize, outcome: ProbeOutcome },
    /// Acknowledge and drop the event.
    Ignore,
}

/// The fixed reaction to each event kind.
pub open spec fn spec_react(e: Event) -> Reaction {
    match e {
        Event::NewListenAddr { addr } => Reaction::ReportListenAddr { addr },
        Event::Discovered { peer, addr } => Reaction::ReportDiscovered { peer, addr },
        Event::IdentifyReceived { conn, record } => Reaction::ReportIdentification {
            conn,
            record: Some(record),
        },
        Event::IdentifyTimeout { conn } => Reaction::ReportIdentification { conn, record: None },
        Event::LivenessResult { conn, outcome } => Reaction::ReportLiveness { conn, outcome },
        Event::ConnectionClosed { .. } => Reaction::Ignore,
    }
}

/// Decide the reaction to one event.
pub fn react(e: Event) -> (r: Reaction)
    ensures
        r == spec_react(e),
{
    match e {
        Event::NewListenAddr { addr } => Reaction::ReportListenAddr { addr },
        Event::Discovered { peer, addr } => Reaction::ReportDiscovered { peer, addr },
        Event::IdentifyReceived { conn, record } => Reaction::ReportIdentification {
            conn,
            record: Some(record),
        },
        Event::IdentifyTimeout { conn } => Reaction::ReportIdentification { conn, record: None },
        Event::LivenessResult { conn, outcome } => Reaction::ReportLiveness { conn, outcome },
        Event::ConnectionClosed { .. } => Reaction::Ignore,
    }
}

} // verus!
