//! The composite behaviour dispatcher: the exclusive owner of the set of
//! active connections and of the three protocol handlers' bookkeeping. It
//! registers a new connection with all three handlers in one indivisible
//! step, removes a closing connection from all three before its closure is
//! reported, and merges the handlers' outputs into one tagged event stream,
//! surfacing at most one ready event per poll — ties broken by the fixed
//! handler order: transport first, then discovery, identification, liveness.

use vstd::prelude::*;
use crate::events::{Event, IdentifyRecord, ProbeOutcome, refs_conn};
use crate::transport::{
    AuthOutcome, UpgradeError, auth_view, opt_bytes_view, upgrade_outcome, upgrade_spec,
};

verus! {

/// Life cycle of a registered connection. Negotiation runs inside the
/// transport stack, before registration; `Established` is reached once
/// multiplexing is ready; `Active` is the steady state that liveness
/// probing runs on, with the one-shot identification exchange layered over
/// it. Closing aborts all streams and clears every handler's bookkeeping
/// before the closure is reported, in one indivisible step of the single
/// polling context, so a distinct closing state is never observable.
#[derive(Clone, Copy, Debug, PartialEq, Eq, Structural)]
pub enum ConnPhase {
    Established,
    Active,
    Closed,
}

/// Progress of the one-shot identification exchange on a connection.
#[derive(Clone, Copy, Debug, PartialEq, Eq, Structural)]
pub enum IdentifyPhase {
    NotStarted,
    InFlight,
    Done,
    TimedOut,
}

/// One registered connection. Its identifier is its index in the
/// dispatcher's registry; entries are never removed, so an identifier is
/// never reused for a later connection.
pub struct ConnEntry {
    /// The remote identity proven during the authentication stage.
    pub remote: Vec<u8>,
    pub phase: ConnPhase,
    pub identify: IdentifyPhase,
    /// Whether a liveness probe is currently in flight on this connection.
    pub probe_in_flight: bool,
    /// Consecutive missed probe responses, reset by each answered probe.
    pub consecutive_failures: u64,
    /// Open logical streams beyond the handlers' dedicated ones.
    pub streams: u64,
    /// Per-handler registration. All three are set and cleared together.
    pub in_discovery: bool,
    pub in_identify: bool,
    pub in_liveness: bool,
}

impl ConnEntry {
    pub open spec fn is_open(self) -> bool {
        self.phase != ConnPhase::Closed
    }

    pub open spec fn registered_everywhere(self) -> bool {
        self.in_discovery && self.in_identify && self.in_liveness
    }

    pub open spec fn registered_nowhere(self) -> bool {
        !self.in_discovery && !self.in_identify && !self.in_liveness
    }

    /// An open connection is visible to all three handlers; a closed one to
    /// none, with no probe in flight and no stream left open.
    pub open spec fn wf(self) -> bool {
        &&& (self.is_open() ==> self.registered_everywhere())
        &&& (!self.is_open() ==> self.registered_nowhere() && !self.probe_in_flight
            && self.streams == 0)
    }
}

/// The entry a fresh connection is registered under: established, not yet
/// identified, no probe in flight, visible to all three handlers.
pub open spec fn fresh_entry(remote: Vec<u8>) -> ConnEntry {
    ConnEntry {
        remote,
        phase: ConnPhase::Established,
        identify: IdentifyPhase::NotStarted,
        probe_in_flight: false,
        consecutive_failures: 0,
        streams: 0,
        in_discovery: true,
        in_identify: true,
        in_liveness: true,
    }
}

/// The connection, if any, a closure event in the transport queue refers to.
pub open spec fn closed_event_conn(e: Event) -> Option<usize> {
    match e {
        Event::ConnectionClosed { conn } => Some(conn),
        _ => None,
    }
}

/// A queue with every event referring to connection `id` taken out, the
/// order of the rest kept.
pub open spec fn purged(s: Seq<Event>, id: usize) -> Seq<Event>
    decreases s.len(),
{
    if s.len() == 0 {
        Seq::empty()
    } else if refs_conn(s[0], id) {
        purged(s.drop_first(), id)
    } else {
        seq![s[0]] + purged(s.drop_first(), id)
    }
}

proof fn lemma_purged_push(s: Seq<Event>, x: Event, id: usize)
    ensures
        purged(s.push(x), id) == (if refs_conn(x, id) {
            purged(s, id)
        } else {
            purged(s, id).push(x)
        }),
    decreases s.len(),
{
    if s.len() == 0 {
        assert(s.push(x)[0] == x);
        assert(s.push(x).drop_first() =~= s);
        assert(purged(s, id) == Seq::<Event>::empty());
        if !refs_conn(x, id) {
            assert(purged(s.push(x), id) =~= purged(s, id).push(x));
        }
    } else {
        assert(s.push(x)[0] == s[0]);
        assert(s.push(x).drop_first() =~= s.drop_first().push(x));
        lemma_purged_push(s.drop_first(), x, id);
        if !refs_conn(s[0], id) && !refs_conn(x, id) {
            assert(seq![s[0]] + purged(s.drop_first(), id).push(x) =~= (seq![s[0]] + purged(
                s.drop_first(),
                id,
            )).push(x));
        }
    }
}

/// Whatever held of every event of a queue holds of every event left after
/// a purge: the purge removes events, it never alters or invents one.
proof fn lemma_purged_preserves(s: Seq<Event>, id: usize, p: spec_fn(Event) -> bool)
    requires
        forall|k: int| 0 <= k < s.len() ==> p(#[trigger] s[k]),
    ensures
        forall|k: int| 0 <= k < purged(s, id).len() ==> p(#[trigger] purged(s, id)[k]),
    decreases s.len(),
{
    if s.len() > 0 {
        assert forall|k: int| 0 <= k < s.drop_first().len() implies p(
            #[trigger] s.drop_first()[k],
        ) by {
            assert(s.drop_first()[k] == s[k + 1]);
        }
        lemma_purged_preserves(s.drop_first(), id, p);
        if refs_conn(s[0], id) {
            assert(purged(s, id) == purged(s.drop_first(), id));
            assert forall|k: int| 0 <= k < purged(s, id).len() implies p(
                #[trigger] purged(s, id)[k],
            ) by {
                assert(purged(s, id)[k] == purged(s.drop_first(), id)[k]);
            }
        } else {
            assert forall|k: int| 0 <= k < purged(s, id).len() implies p(
                #[trigger] purged(s, id)[k],
            ) by {
                if k == 0 {
                    assert(purged(s, id)[0] == s[0]);
                } else {
                    assert(purged(s, id)[k] == purged(s.drop_first(), id)[k - 1]);
                }
            }
        }
    }
}

/// No event left after a purge refers to the purged connection.
proof fn lemma_purged_no_refs(s: Seq<Event>, id: usize)
    ensures
        forall|k: int| 0 <= k < purged(s, id).len() ==> !refs_conn(#[trigger] purged(s, id)[k], id),
    decreases s.len(),
{
    if s.len() > 0 {
        lemma_purged_no_refs(s.drop_first(), id);
        if refs_conn(s[0], id) {
            assert(purged(s, id) == purged(s.drop_first(), id));
            assert forall|k: int| 0 <= k < purged(s, id).len() implies !refs_conn(
                #[trigger] purged(s, id)[k],
                id,
            ) by {
                assert(purged(s, id)[k] == purged(s.drop_first(), id)[k]);
            }
        } else {
            assert forall|k: int| 0 <= k < purged(s, id).len() implies !refs_conn(
                #[trigger] purged(s, id)[k],
                id,
            ) by {
                if k == 0 {
                    assert(purged(s, id)[0] == s[0]);
                } else {
                    assert(purged(s, id)[k] == purged(s.drop_first(), id)[k - 1]);
                }
            }
        }
    }
}

/// Take every event referring to connection `id` out of a queue, in place,
/// keeping the order of the rest.
fn purge_queue(q: &mut Vec<Event>, id: usize)
    ensures
        final(q)@ == purged(old(q)@, id),
{
    let ghost orig = q@;
    let ghost mut j: int = 0;
    let mut i: usize = 0;
    while i < q.len()
        invariant
            0 <= j <= orig.len(),
            i as int == purged(orig.subrange(0, j), id).len(),
            q@ == purged(orig.subrange(0, j), id) + orig.subrange(j, orig.len() as int),
        decreases q@.len() - i,
    {
        proof {
            assert(q@[i as int] == orig.subrange(j, orig.len() as int)[0]);
            assert(q@[i as int] == orig[j]);
            assert(orig.subrange(0, j + 1) =~= orig.subrange(0, j).push(orig[j]));
            lemma_purged_push(orig.subrange(0, j), orig[j], id);
        }
        if crate::events::event_refers_to(&q[i], id) {
            q.remove(i);
            proof {
                assert(q@ =~= purged(orig.subrange(0, j + 1), id) + orig.subrange(
                    j + 1,
                    orig.len() as int,
                ));
            }
        } else {
            i = i + 1;
            proof {
                assert(q@ =~= purged(orig.subrange(0, j + 1), id) + orig.subrange(
                    j + 1,
                    orig.len() as int,
                ));
            }
        }
        proof {
            j = j + 1;
        }
    }
    proof {
        assert(j == orig.len());
        assert(orig.subrange(0, j) =~= orig);
        assert(orig.subrange(j, orig.len() as int) =~= Seq::<Event>::empty());
        assert(q@ =~= purged(orig, id));
    }
}

/// What is left of a connection's entry once it closed: removed from every
/// handler, no probe in flight, every stream aborted; its remote identity
/// and identification history remain readable.
pub open spec fn closed_entry(c: ConnEntry) -> ConnEntry {
    ConnEntry {
        phase: ConnPhase::Closed,
        probe_in_flight: false,
        streams: 0,
        in_discovery: false,
        in_identify: false,
        in_liveness: false,
        ..c
    }
}

/// The dispatcher: the connection registry and one pending-event queue per
/// event source. Each queue is first-in first-out, so events from a single
/// handler for a single connection are delivered in production order.
pub struct Dispatcher {
    pub conns: Vec<ConnEntry>,
    pub transport_q: Vec<Event>,
    pub discovery_q: Vec<Event>,
    pub identify_q: Vec<Event>,
    pub liveness_q: Vec<Event>,
}

impl Dispatcher {
    /// Transport-level queue entries: listening addresses, and closure
    /// events, each referring to a connection already marked closed.
    pub open spec fn transport_event_ok(self, e: Event) -> bool {
        match e {
            Event::NewListenAddr { .. } => true,
            Event::ConnectionClosed { conn } => conn < self.conns@.len() && !self.conns@[
                conn as int
            ].is_open(),
            _ => false,
        }
    }

    pub open spec fn discovery_event_ok(self, e: Event) -> bool {
        e matches Event::Discovered { .. }
    }

    /// Identification events refer to a connection that is still open.
    pub open spec fn identify_event_ok(self, e: Event) -> bool {
        match e {
            Event::IdentifyReceived { conn, .. } => conn < self.conns@.len() && self.conns@[
                conn as int
            ].is_open(),
            Event::IdentifyTimeout { conn } => conn < self.conns@.len() && self.conns@[
                conn as int
            ].is_open(),
            _ => false,
        }
    }

    /// Liveness events refer to a connection that is still open.
    pub open spec fn liveness_event_ok(self, e: Event) -> bool {
        match e {
            Event::LivenessResult { conn, .. } => conn < self.conns@.len() && self.conns@[
                conn as int
            ].is_open(),
            _ => false,
        }
    }

    /// The dispatcher's invariant: every entry is well formed, every queue
    /// holds only its own kind of event, handler events refer only to open
    /// connections, and each connection is closed — and so reported — at
    /// most once.
    pub open spec fn wf(self) -> bool {
        &&& forall|i: int|
            0 <= i < self.conns@.len() ==> (#[trigger] self.conns@[i]).wf()
        &&& forall|i: int|
            0 <= i < self.transport_q@.len() ==> self.transport_event_ok(
                #[trigger] self.transport_q@[i],
            )
        &&& forall|i: int|
            0 <= i < self.discovery_q@.len() ==> self.discovery_event_ok(
                #[trigger] self.discovery_q@[i],
            )
        &&& forall|i: int|
            0 <= i < self.identify_q@.len() ==> self.identify_event_ok(
                #[trigger] self.identify_q@[i],
            )
        &&& forall|i: int|
            0 <= i < self.liveness_q@.len() ==> self.liveness_event_ok(
                #[trigger] self.liveness_q@[i],
            )
        &&& forall|i: int, j: int|
            0 <= i < j < self.transport_q@.len() && closed_event_conn(
                #[trigger] self.transport_q@[i],
            ) is Some ==> closed_event_conn(self.transport_q@[i]) != closed_event_conn(
                #[trigger] self.transport_q@[j],
            )
    }

    /// The queues, untouched by an operation on the registry alone.
    pub open spec fn queues_unchanged(pre: Self, post: Self) -> bool {
        &&& post.transport_q == pre.transport_q
        &&& post.discovery_q == pre.discovery_q
        &&& post.identify_q == pre.identify_q
        &&& post.liveness_q == pre.liveness_q
    }

    /// A dispatcher with no connection and no pending event.
    pub fn new() -> (d: Dispatcher)
        ensures
            d.wf(),
            d.conns@.len() == 0,
            d.transport_q@.len() == 0,
            d.discovery_q@.len() == 0,
            d.identify_q@.len() == 0,
            d.liveness_q@.len() == 0,
    {
        Dispatcher {
            conns: Vec::new(),
            transport_q: Vec::new(),
            discovery_q: Vec::new(),
            identify_q: Vec::new(),
            liveness_q: Vec::new(),
        }
    }

    /// Run one connection attempt through the transport stack's upgrade
    /// decision and, when it succeeds, register the connection with all
    /// three handlers in one indivisible step. On failure the attempt is
    /// discarded: the dispatcher is exactly as it was, so a connection
    /// whose authentication failed is never visible to any handler.
    pub fn admit_connection(
        &mut self,
        expected: &Option<Vec<u8>>,
        auth: AuthOutcome,
        mux_ok: bool,
    ) -> (r: Result<usize, UpgradeError>)
        requires
            old(self).wf(),
        ensures
            final(self).wf(),
            r matches Err(e) ==> *final(self) == *old(self) && upgrade_spec(
                opt_bytes_view(*expected),
                auth_view(auth),
                mux_ok,
            ) == Err::<Seq<u8>, UpgradeError>(e),
            r matches Ok(id) ==> {
                &&& upgrade_spec(opt_bytes_view(*expected), auth_view(auth), mux_ok) matches Ok(
                    rem,
                ) && final(self).conns@[id as int].remote@ == rem
                &&& id == old(self).conns@.len()
                &&& final(self).conns@ == old(self).conns@.push(
                    fresh_entry(final(self).conns@[id as int].remote),
                )
                &&& Self::queues_unchanged(*old(self), *final(self))
            },
    {
        match upgrade_outcome(expected, auth, mux_ok) {
            Err(e) => Err(e),
            Ok(remote) => {
                let id = self.conns.len();
                self.conns.push(
                    ConnEntry {
                        remote,
                        phase: ConnPhase::Established,
                        identify: IdentifyPhase::NotStarted,
                        probe_in_flight: false,
                        consecutive_failures: 0,
                        streams: 0,
                        in_discovery: true,
                        in_identify: true,
                        in_liveness: true,
                    },
                );
                proof {
                    assert forall|i: int| 0 <= i < self.conns@.len() implies (
                    #[trigger] self.conns@[i]).wf() by {
                        if i < old(self).conns@.len() {
                            assert(self.conns@[i] == old(self).conns@[i]);
                        }
                    }
                    assert forall|i: int|
                        0 <= i < old(self).conns@.len() implies (
                    #[trigger] self.conns@[i]).is_open() == old(self).conns@[i].is_open() by {
                        assert(self.conns@[i] == old(self).conns@[i]);
                    }
                    Self::lemma_same_openness_preserves_queues(*old(self), *self);
                }
                Ok(id)
            },
        }
    }

    pub open spec fn can_activate(self, id: usize) -> bool {
        id < self.conns@.len() && self.conns@[id as int].phase == ConnPhase::Established
    }

    /// Move an established connection into the steady `Active` state, on
    /// which liveness probing runs.
    pub fn activate(&mut self, id: usize) -> (r: bool)
        requires
            old(self).wf(),
        ensures
            final(self).wf(),
            r == old(self).can_activate(id),
            !r ==> *final(self) == *old(self),
            r ==> final(self).conns@ == old(self).conns@.update(
                id as int,
                (ConnEntry { phase: ConnPhase::Active, ..old(self).conns@[id as int] }),
            ) && Self::queues_unchanged(*old(self), *final(self)),
    {
        if id < self.conns.len() && self.conns[id].phase == ConnPhase::Established {
            let entry = &mut self.conns[id];
            entry.phase = ConnPhase::Active;
            proof {
                assert forall|i: int| 0 <= i < self.conns@.len() implies (
                #[trigger] self.conns@[i]).wf() by {
                    if i != id {
                        assert(self.conns@[i] == old(self).conns@[i]);
                    } else {
                        assert(old(self).conns@[i].wf());
                    }
                }
                assert forall|i: int|
                    0 <= i < old(self).conns@.len() implies (#[trigger] self.conns@[i]).is_open()
                    == old(self).conns@[i].is_open() by {
                    if i != id {
                        assert(self.conns@[i] == old(self).conns@[i]);
                    }
                }
                Self::lemma_same_openness_preserves_queues(*old(self), *self);
            }
            true
        } else {
            false
        }
    }

    pub open spec fn can_begin_identify(self, id: usize) -> bool {
        id < self.conns@.len() && self.conns@[id as int].is_open() && self.conns@[
            id as int
        ].identify == IdentifyPhase::NotStarted
    }

    /// How one call of `begin_identify` relates the dispatcher before it to
    /// the dispatcher after it and to its result.
    pub open spec fn begin_identify_rel(pre: Self, post: Self, id: usize, r: bool) -> bool {
        &&& r == pre.can_begin_identify(id)
        &&& (r ==> post.conns@ == pre.conns@.update(
            id as int,
            (ConnEntry { identify: IdentifyPhase::InFlight, ..pre.conns@[id as int] }),
        ) && Self::queues_unchanged(pre, post))
        &&& (!r ==> post == pre)
    }

    /// Start the one-shot identification exchange on a connection. It can
    /// be begun only while it has never been begun on this connection, so
    /// the exchange runs at most once per connection lifetime.
    pub fn begin_identify(&mut self, id: usize) -> (r: bool)
        requires
            old(self).wf(),
        ensures
            final(self).wf(),
            Self::begin_identify_rel(*old(self), *final(self), id, r),
    {
        if id < self.conns.len() && self.conns[id].phase != ConnPhase::Closed && self.conns[
            id
        ].identify == IdentifyPhase::NotStarted {
            let entry = &mut self.conns[id];
            entry.identify = IdentifyPhase::InFlight;
            proof {
                self.lemma_entry_update_wf(*old(self), id);
            }
            true
        } else {
            false
        }
    }

    /// The peer's record arrived on the identification stream: record the
    /// exchange as done and queue the event. The record supersedes nothing:
    /// the exchange happens at most once, so none preceded it.
    pub fn complete_identify(&mut self, id: usize, record: IdentifyRecord) -> (r: bool)
        requires
            old(self).wf(),
        ensures
            final(self).wf(),
            r == (id < old(self).conns@.len() && old(self).conns@[id as int].is_open() && old(
                self,
            ).conns@[id as int].identify == IdentifyPhase::InFlight),
            !r ==> *final(self) == *old(self),
            r ==> {
                &&& final(self).conns@ == old(self).conns@.update(
                    id as int,
                    (ConnEntry { identify: IdentifyPhase::Done, ..old(self).conns@[id as int] }),
                )
                &&& final(self).identify_q@ == old(self).identify_q@.push(
                    (Event::IdentifyReceived { conn: id, record }),
                )
                &&& final(self).transport_q == old(self).transport_q
                &&& final(self).discovery_q == old(self).discovery_q
                &&& final(self).liveness_q == old(self).liveness_q
            },
    {
        if id < self.conns.len() && self.conns[id].phase != ConnPhase::Closed && self.conns[
            id
        ].identify == IdentifyPhase::InFlight {
            self.identify_q.push(Event::IdentifyReceived { conn: id, record });
            let entry = &mut self.conns[id];
            entry.identify = IdentifyPhase::Done;
            proof {
                self.lemma_entry_update_wf(*old(self), id);
            }
            true
        } else {
            false
        }
    }

    /// The peer did not answer the identification exchange within the
    /// bounded window: report the timeout. The connection itself stays in
    /// its phase — identification is best-effort metadata, not a liveness
    /// requirement — so liveness probing continues on it.
    pub fn identify_timeout(&mut self, id: usize) -> (r: bool)
        requires
            old(self).wf(),
        ensures
            final(self).wf(),
            r == (id < old(self).conns@.len() && old(self).conns@[id as int].is_open() && old(
                self,
            ).conns@[id as int].identify == IdentifyPhase::InFlight),
            !r ==> *final(self) == *old(self),
            r ==> {
                &&& final(self).conns@ == old(self).conns@.update(
                    id as int,
                    (ConnEntry {
                        identify: IdentifyPhase::TimedOut,
                        ..old(self).conns@[id as int]
                    }),
                )
                &&& final(self).conns@[id as int].phase == old(self).conns@[id as int].phase
                &&& final(self).identify_q@ == old(self).identify_q@.push(
                    (Event::IdentifyTimeout { conn: id }),
                )
                &&& final(self).transport_q == old(self).transport_q
                &&& final(self).discovery_q == old(self).discovery_q
                &&& final(self).liveness_q == old(self).liveness_q
            },
    {
        if id < self.conns.len() && self.conns[id].phase != ConnPhase::Closed && self.conns[
            id
        ].identify == IdentifyPhase::InFlight {
            self.identify_q.push(Event::IdentifyTimeout { conn: id });
            let entry = &mut self.conns[id];
            entry.identify = IdentifyPhase::TimedOut;
            proof {
                self.lemma_entry_update_wf(*old(self), id);
            }
            true
        } else {
            false
        }
    }

    pub open spec fn can_start_probe(self, id: usize) -> bool {
        id < self.conns@.len() && self.conns@[id as int].phase == ConnPhase::Active && !self.conns@[
            id as int
        ].probe_in_flight
    }

    /// How one call of `start_probe` relates the dispatcher before it to
    /// the dispatcher after it and to its result.
    pub open spec fn start_probe_rel(pre: Self, post: Self, id: usize, r: bool) -> bool {
        &&& r == pre.can_start_probe(id)
        &&& (r ==> post.conns@ == pre.conns@.update(
            id as int,
            (ConnEntry { probe_in_flight: true, ..pre.conns@[id as int] }),
        ) && Self::queues_unchanged(pre, post))
        &&& (!r ==> post == pre)
    }

    /// Open the next liveness probe on a connection. A probe can start only
    /// while no probe is in flight on that connection, so probes on one
    /// connection are strictly sequential; connections are independent.
    pub fn start_probe(&mut self, id: usize) -> (r: bool)
        requires
            old(self).wf(),
        ensures
            final(self).wf(),
            Self::start_probe_rel(*old(self), *final(self), id, r),
    {
        if id < self.conns.len() && self.conns[id].phase == ConnPhase::Active && !self.conns[
            id
        ].probe_in_flight {
            let entry = &mut self.conns[id];
            entry.probe_in_flight = true;
            proof {
                self.lemma_entry_update_wf(*old(self), id);
            }
            true
        } else {
            false
        }
    }

    /// The consecutive-failure count after one probe outcome: an answered
    /// probe resets it, a missed one raises it (saturating).
    pub open spec fn next_failures(before: u64, outcome: ProbeOutcome) -> u64 {
        match outcome {
            ProbeOutcome::Rtt(_) => 0u64,
            ProbeOutcome::Failed => if before < u64::MAX {
                (before + 1) as u64
            } else {
                before
            },
        }
    }

    /// The probe in flight on a connection finished, with a round-trip time
    /// or a missed response: clear it and queue the measurement. A failure
    /// is reported but never closes the connection by itself — closure
    /// policy belongs to the event consumer.
    pub fn finish_probe(&mut self, id: usize, outcome: ProbeOutcome) -> (r: bool)
        requires
            old(self).wf(),
        ensures
            final(self).wf(),
            r == (id < old(self).conns@.len() && old(self).conns@[id as int].is_open() && old(
                self,
            ).conns@[id as int].probe_in_flight),
            !r ==> *final(self) == *old(self),
            r ==> {
                &&& final(self).conns@ == old(self).conns@.update(
                    id as int,
                    (ConnEntry {
                        probe_in_flight: false,
                        consecutive_failures: Self::next_failures(
                            old(self).conns@[id as int].consecutive_failures,
                            outcome,
                        ),
                        ..old(self).conns@[id as int]
                    }),
                )
                &&& final(self).liveness_q@ == old(self).liveness_q@.push(
                    (Event::LivenessResult { conn: id, outcome }),
                )
                &&& final(self).transport_q == old(self).transport_q
                &&& final(self).discovery_q == old(self).discovery_q
                &&& final(self).identify_q == old(self).identify_q
            },
    {
        if id < self.conns.len() && self.conns[id].phase != ConnPhase::Closed && self.conns[
            id
        ].probe_in_flight {
            self.liveness_q.push(Event::LivenessResult { conn: id, outcome });
            let prior = self.conns[id].consecutive_failures;
            let entry = &mut self.conns[id];
            entry.probe_in_flight = false;
            entry.consecutive_failures = match outcome {
                ProbeOutcome::Rtt(_) => 0,
                ProbeOutcome::Failed => if prior < u64::MAX {
                    prior + 1
                } else {
                    prior
                },
            };
            proof {
                self.lemma_entry_update_wf(*old(self), id);
            }
            true
        } else {
            false
        }
    }

    pub open spec fn can_open_stream(self, id: usize) -> bool {
        id < self.conns@.len() && self.conns@[id as int].is_open() && self.conns@[
            id as int
        ].streams < u64::MAX
    }

    /// How one call of `open_stream` relates the dispatcher before it to
    /// the dispatcher after it and to its result. The identification state
    /// is untouched: opening streams never re-runs the exchange.
    pub open spec fn open_stream_rel(pre: Self, post: Self, id: usize, r: bool) -> bool {
        &&& r == pre.can_open_stream(id)
        &&& (r ==> post.conns@ == pre.conns@.update(
            id as int,
            (ConnEntry {
                streams: (pre.conns@[id as int].streams + 1) as u64,
                ..pre.conns@[id as int]
            }),
        ) && Self::queues_unchanged(pre, post))
        &&& (!r ==> post == pre)
    }

    /// Open one more logical stream on a connection.
    pub fn open_stream(&mut self, id: usize) -> (r: bool)
        requires
            old(self).wf(),
        ensures
            final(self).wf(),
            Self::open_stream_rel(*old(self), *final(self), id, r),
    {
        if id < self.conns.len() && self.conns[id].phase != ConnPhase::Closed && self.conns[
            id
        ].streams < u64::MAX {
            let next = self.conns[id].streams + 1;
            let entry = &mut self.conns[id];
            entry.streams = next;
            proof {
                self.lemma_entry_update_wf(*old(self), id);
            }
            true
        } else {
            false
        }
    }

    /// A presence announcement was observed on the local network: queue one
    /// discovered-peer record. Observations are independent of any
    /// connection, never deduplicated, and never dial anything themselves.
    pub fn observe_discovery(&mut self, peer: Vec<u8>, addr: Vec<u8>)
        requires
            old(self).wf(),
        ensures
            final(self).wf(),
            final(self).discovery_q@ == old(self).discovery_q@.push(
                (Event::Discovered { peer, addr }),
            ),
            final(self).conns == old(self).conns,
            final(self).transport_q == old(self).transport_q,
            final(self).identify_q == old(self).identify_q,
            final(self).liveness_q == old(self).liveness_q,
    {
        self.discovery_q.push(Event::Discovered { peer, addr });
        proof {
            self.lemma_entry_update_wf(*old(self), 0);
        }
    }

    /// A concrete local listening address was bound: queue the
    /// transport-level event that reports it.
    pub fn new_listen_addr(&mut self, addr: Vec<u8>)
        requires
            old(self).wf(),
        ensures
            final(self).wf(),
            final(self).transport_q@ == old(self).transport_q@.push(
                (Event::NewListenAddr { addr }),
            ),
            final(self).conns == old(self).conns,
            final(self).discovery_q == old(self).discovery_q,
            final(self).identify_q == old(self).identify_q,
            final(self).liveness_q == old(self).liveness_q,
    {
        self.transport_q.push(Event::NewListenAddr { addr });
        proof {
            self.lemma_entry_update_wf(*old(self), 0);
        }
    }

    /// Close a connection: abort its streams, clear its probe, remove it
    /// from all three handlers' bookkeeping and drop every event still
    /// queued about it, then — and only then — queue the one closure event.
    /// After that event no event referring to this connection is ever
    /// delivered again: none is left, and no handler operation reaches a
    /// removed connection.
    pub fn close_connection(&mut self, id: usize) -> (r: bool)
        requires
            old(self).wf(),
        ensures
            final(self).wf(),
            r == (id < old(self).conns@.len() && old(self).conns@[id as int].is_open()),
            !r ==> *final(self) == *old(self),
            r ==> {
                &&& final(self).conns@ == old(self).conns@.update(
                    id as int,
                    closed_entry(old(self).conns@[id as int]),
                )
                &&& final(self).transport_q@ == old(self).transport_q@.push(
                    (Event::ConnectionClosed { conn: id }),
                )
                &&& final(self).discovery_q == old(self).discovery_q
                &&& final(self).identify_q@ == purged(old(self).identify_q@, id)
                &&& final(self).liveness_q@ == purged(old(self).liveness_q@, id)
            },
    {
        if id < self.conns.len() && self.conns[id].phase != ConnPhase::Closed {
            let entry = &mut self.conns[id];
            entry.phase = ConnPhase::Closed;
            entry.probe_in_flight = false;
            entry.streams = 0;
            entry.in_discovery = false;
            entry.in_identify = false;
            entry.in_liveness = false;
            purge_queue(&mut self.identify_q, id);
            purge_queue(&mut self.liveness_q, id);
            self.transport_q.push(Event::ConnectionClosed { conn: id });
            proof {
                self.lemma_close_wf(*old(self), id);
            }
            true
        } else {
            false
        }
    }

    /// The invariant holds again after a close: the one new closure event
    /// refers to a connection now closed and reported for the first time,
    /// and every surviving handler event refers to a connection still open.
    proof fn lemma_close_wf(&self, pre: Self, id: usize)
        requires
            pre.wf(),
            id < pre.conns@.len(),
            pre.conns@[id as int].is_open(),
            self.conns@ == pre.conns@.update(id as int, closed_entry(pre.conns@[id as int])),
            self.transport_q@ == pre.transport_q@.push((Event::ConnectionClosed { conn: id })),
            self.discovery_q == pre.discovery_q,
            self.identify_q@ == purged(pre.identify_q@, id),
            self.liveness_q@ == purged(pre.liveness_q@, id),
        ensures
            self.wf(),
    {
        let post = *self;
        assert forall|i: int| 0 <= i < post.conns@.len() implies (#[trigger] post.conns@[i]).wf()
        by {
            assert(pre.conns@[i].wf());
        }
        let last = post.transport_q@.len() - 1;
        assert forall|i: int|
            0 <= i < post.transport_q@.len() implies post.transport_event_ok(
            #[trigger] post.transport_q@[i],
        ) by {
            if i < last {
                assert(post.transport_q@[i] == pre.transport_q@[i]);
                assert(pre.transport_event_ok(pre.transport_q@[i]));
            } else {
                assert(post.transport_q@[i] == (Event::ConnectionClosed { conn: id }));
            }
        }
        assert forall|i: int|
            0 <= i < post.discovery_q@.len() implies post.discovery_event_ok(
            #[trigger] post.discovery_q@[i],
        ) by {
            assert(pre.discovery_event_ok(pre.discovery_q@[i]));
        }
        lemma_purged_preserves(pre.identify_q@, id, |e: Event| pre.identify_event_ok(e));
        lemma_purged_no_refs(pre.identify_q@, id);
        assert forall|i: int|
            0 <= i < post.identify_q@.len() implies post.identify_event_ok(
            #[trigger] post.identify_q@[i],
        ) by {
            let e = post.identify_q@[i];
            assert(pre.identify_event_ok(e));
            assert(!refs_conn(e, id));
        }
        lemma_purged_preserves(pre.liveness_q@, id, |e: Event| pre.liveness_event_ok(e));
        lemma_purged_no_refs(pre.liveness_q@, id);
        assert forall|i: int|
            0 <= i < post.liveness_q@.len() implies post.liveness_event_ok(
            #[trigger] post.liveness_q@[i],
        ) by {
            let e = post.liveness_q@[i];
            assert(pre.liveness_event_ok(e));
            assert(!refs_conn(e, id));
        }
        assert forall|i: int, j: int|
            0 <= i < j < post.transport_q@.len() && closed_event_conn(
                #[trigger] post.transport_q@[i],
            ) is Some implies closed_event_conn(post.transport_q@[i]) != closed_event_conn(
            #[trigger] post.transport_q@[j],
        ) by {
            if j < last {
                assert(post.transport_q@[i] == pre.transport_q@[i]);
                assert(post.transport_q@[j] == pre.transport_q@[j]);
            } else {
                assert(post.transport_q@[i] == pre.transport_q@[i]);
                assert(pre.transport_event_ok(pre.transport_q@[i]));
                assert(post.transport_q@[j] == (Event::ConnectionClosed { conn: id }));
            }
        }
    }

    /// Surface at most one ready event: the front of the first non-empty
    /// queue in the fixed tie-break order — transport-level events first,
    /// then discovery, then identification, then liveness. Within each
    /// queue events leave in the order they were produced.
    pub fn poll(&mut self) -> (r: Option<Event>)
        requires
            old(self).wf(),
        ensures
            final(self).wf(),
            final(self).conns == old(self).conns,
            old(self).transport_q@.len() > 0 ==> {
                &&& r == Some(old(self).transport_q@[0])
                &&& final(self).transport_q@ == old(self).transport_q@.drop_first()
                &&& final(self).discovery_q == old(self).discovery_q
                &&& final(self).identify_q == old(self).identify_q
                &&& final(self).liveness_q == old(self).liveness_q
            },
            (old(self).transport_q@.len() == 0 && old(self).discovery_q@.len() > 0) ==> {
                &&& r == Some(old(self).discovery_q@[0])
                &&& final(self).discovery_q@ == old(self).discovery_q@.drop_first()
                &&& final(self).transport_q == old(self).transport_q
                &&& final(self).identify_q == old(self).identify_q
                &&& final(self).liveness_q == old(self).liveness_q
            },
            (old(self).transport_q@.len() == 0 && old(self).discovery_q@.len() == 0 && old(
                self,
            ).identify_q@.len() > 0) ==> {
                &&& r == Some(old(self).identify_q@[0])
                &&& final(self).identify_q@ == old(self).identify_q@.drop_first()
                &&& final(self).transport_q == old(self).transport_q
                &&& final(self).discovery_q == old(self).discovery_q
                &&& final(self).liveness_q == old(self).liveness_q
            },
            (old(self).transport_q@.len() == 0 && old(self).discovery_q@.len() == 0 && old(
                self,
            ).identify_q@.len() == 0 && old(self).liveness_q@.len() > 0) ==> {
                &&& r == Some(old(self).liveness_q@[0])
                &&& final(self).liveness_q@ == old(self).liveness_q@.drop_first()
                &&& final(self).transport_q == old(self).transport_q
                &&& final(self).discovery_q == old(self).discovery_q
                &&& final(self).identify_q == old(self).identify_q
            },
            (old(self).transport_q@.len() == 0 && old(self).discovery_q@.len() == 0 && old(
                self,
            ).identify_q@.len() == 0 && old(self).liveness_q@.len() == 0) ==> r is None
                && *final(self) == *old(self),
    {
        if self.transport_q.len() > 0 {
            let e = self.transport_q.remove(0);
            proof {
                assert(self.transport_q@ =~= old(self).transport_q@.drop_first());
                self.lemma_poll_wf(*old(self));
            }
            Some(e)
        } else if self.discovery_q.len() > 0 {
            let e = self.discovery_q.remove(0);
            proof {
                assert(self.discovery_q@ =~= old(self).discovery_q@.drop_first());
                self.lemma_poll_wf(*old(self));
            }
            Some(e)
        } else if self.identify_q.len() > 0 {
            let e = self.identify_q.remove(0);
            proof {
                assert(self.identify_q@ =~= old(self).identify_q@.drop_first());
                self.lemma_poll_wf(*old(self));
            }
            Some(e)
        } else if self.liveness_q.len() > 0 {
            let e = self.liveness_q.remove(0);
            proof {
                assert(self.liveness_q@ =~= old(self).liveness_q@.drop_first());
                self.lemma_poll_wf(*old(self));
            }
            Some(e)
        } else {
            None
        }
    }

    /// The invariant survives taking the front of any one queue.
    proof fn lemma_poll_wf(&self, pre: Self)
        requires
            pre.wf(),
            self.conns == pre.conns,
            self.transport_q@ == pre.transport_q@ || (pre.transport_q@.len() > 0 && self.transport_q@
                == pre.transport_q@.drop_first()),
            self.discovery_q@ == pre.discovery_q@ || (pre.discovery_q@.len() > 0 && self.discovery_q@
                == pre.discovery_q@.drop_first()),
            self.identify_q@ == pre.identify_q@ || (pre.identify_q@.len() > 0 && self.identify_q@
                == pre.identify_q@.drop_first()),
            self.liveness_q@ == pre.liveness_q@ || (pre.liveness_q@.len() > 0 && self.liveness_q@
                == pre.liveness_q@.drop_first()),
        ensures
            self.wf(),
    {
        let post = *self;
        assert forall|i: int|
            0 <= i < post.transport_q@.len() implies post.transport_event_ok(
            #[trigger] post.transport_q@[i],
        ) by {
            if post.transport_q@ == pre.transport_q@ {
                assert(pre.transport_event_ok(pre.transport_q@[i]));
            } else {
                assert(pre.transport_q@.drop_first()[i] == pre.transport_q@[i + 1]);
                assert(pre.transport_event_ok(pre.transport_q@[i + 1]));
            }
        }
        assert forall|i: int|
            0 <= i < post.discovery_q@.len() implies post.discovery_event_ok(
            #[trigger] post.discovery_q@[i],
        ) by {
            if post.discovery_q@ == pre.discovery_q@ {
                assert(pre.discovery_event_ok(pre.discovery_q@[i]));
            } else {
                assert(pre.discovery_q@.drop_first()[i] == pre.discovery_q@[i + 1]);
                assert(pre.discovery_event_ok(pre.discovery_q@[i + 1]));
            }
        }
        assert forall|i: int|
            0 <= i < post.identify_q@.len() implies post.identify_event_ok(
            #[trigger] post.identify_q@[i],
        ) by {
            if post.identify_q@ == pre.identify_q@ {
                assert(pre.identify_event_ok(pre.identify_q@[i]));
            } else {
                assert(pre.identify_q@.drop_first()[i] == pre.identify_q@[i + 1]);
                assert(pre.identify_event_ok(pre.identify_q@[i + 1]));
            }
        }
        assert forall|i: int|
            0 <= i < post.liveness_q@.len() implies post.liveness_event_ok(
            #[trigger] post.liveness_q@[i],
        ) by {
            if post.liveness_q@ == pre.liveness_q@ {
                assert(pre.liveness_event_ok(pre.liveness_q@[i]));
            } else {
                assert(pre.liveness_q@.drop_first()[i] == pre.liveness_q@[i + 1]);
                assert(pre.liveness_event_ok(pre.liveness_q@[i + 1]));
            }
        }
        assert forall|i: int, j: int|
            0 <= i < j < post.transport_q@.len() && closed_event_conn(
                #[trigger] post.transport_q@[i],
            ) is Some implies closed_event_conn(post.transport_q@[i]) != closed_event_conn(
            #[trigger] post.transport_q@[j],
        ) by {
            if post.transport_q@ == pre.transport_q@ {
                assert(post.transport_q@[i] == pre.transport_q@[i]);
                assert(post.transport_q@[j] == pre.transport_q@[j]);
            } else {
                assert(pre.transport_q@.drop_first()[i] == pre.transport_q@[i + 1]);
                assert(pre.transport_q@.drop_first()[j] == pre.transport_q@[j + 1]);
            }
        }
    }


    /// How many connections have ever been registered; identifiers are the
    /// indices below this count.
    pub fn connection_count(&self) -> (n: usize)
        ensures
            n == self.conns@.len(),
    {
        self.conns.len()
    }

    /// Whether `id` names a registered connection that is still open.
    pub fn is_connection_open(&self, id: usize) -> (r: bool)
        ensures
            r == (id < self.conns@.len() && self.conns@[id as int].is_open()),
    {
        id < self.conns.len() && self.conns[id].phase != ConnPhase::Closed
    }

    /// The remote identity a registered connection is bound to.
    pub fn remote_identity(&self, id: usize) -> (r: Option<&Vec<u8>>)
        ensures
            r matches Some(v) ==> id < self.conns@.len() && v@ == self.conns@[
                id as int
            ].remote@,
            r is None <==> id >= self.conns@.len(),
    {
        if id < self.conns.len() {
            Some(&self.conns[id].remote)
        } else {
            None
        }
    }

    /// Law: the identification exchange runs at most once per connection
    /// lifetime. Of two attempts to begin it on the same connection, one
    /// after the other, at most the first can succeed.
    pub proof fn lemma_identify_at_most_once(
        d0: Self,
        d1: Self,
        d2: Self,
        id: usize,
        r1: bool,
        r2: bool,
    )
        requires
            Self::begin_identify_rel(d0, d1, id, r1),
            Self::begin_identify_rel(d1, d2, id, r2),
        ensures
            !(r1 && r2),
    {
    }

    /// Law: however many logical streams are opened on a connection in
    /// between, a begun identification exchange can never be begun again —
    /// opening streams does not touch the exchange's state.
    pub proof fn lemma_identify_once_despite_streams(
        d0: Self,
        d1: Self,
        d2: Self,
        d3: Self,
        id: usize,
        sid: usize,
        r1: bool,
        rs: bool,
        r3: bool,
    )
        requires
            Self::begin_identify_rel(d0, d1, id, r1),
            r1,
            Self::open_stream_rel(d1, d2, sid, rs),
            Self::begin_identify_rel(d2, d3, id, r3),
        ensures
            !r3,
    {
        assert(d2.conns@[id as int].identify == d1.conns@[id as int].identify);
    }

    /// Law: liveness probes on one connection never interleave. Of two
    /// attempts to start a probe on the same connection, one after the
    /// other with no probe finished in between, at most the first succeeds.
    pub proof fn lemma_probe_sequential(
        d0: Self,
        d1: Self,
        d2: Self,
        id: usize,
        r1: bool,
        r2: bool,
    )
        requires
            Self::start_probe_rel(d0, d1, id, r1),
            Self::start_probe_rel(d1, d2, id, r2),
        ensures
            !(r1 && r2),
    {
    }

    /// Law: probes on distinct connections are independent — starting a
    /// probe on one connection neither enables nor disables a probe on any
    /// other.
    pub proof fn lemma_probes_independent(
        d0: Self,
        d1: Self,
        id1: usize,
        id2: usize,
        r: bool,
    )
        requires
            Self::start_probe_rel(d0, d1, id1, r),
            id1 != id2,
        ensures
            d1.can_start_probe(id2) == d0.can_start_probe(id2),
    {
        if r && id2 < d0.conns@.len() {
            assert(d1.conns@[id2 as int] == d0.conns@[id2 as int]);
        }
    }

    /// Law: registration is atomic. In every reachable dispatcher a
    /// connection is visible to all three handlers or to none — partial
    /// registration is impossible — and it is visible to all three exactly
    /// while it is open.
    pub proof fn lemma_registration_atomic(d: Self, id: usize)
        requires
            d.wf(),
            id < d.conns@.len(),
        ensures
            d.conns@[id as int].registered_everywhere() || d.conns@[
                id as int
            ].registered_nowhere(),
            d.conns@[id as int].is_open() <==> d.conns@[id as int].registered_everywhere(),
    {
        assert(d.conns@[id as int].wf());
    }

    /// Law: once a connection's closure event has been delivered, no event
    /// referring to that connection is ever delivered again: closing purged
    /// the handler queues, handler operations no longer reach it, and its
    /// one closure event is gone.
    pub proof fn lemma_closed_connection_silent(d: Self, id: usize)
        requires
            d.wf(),
            id < d.conns@.len(),
            !d.conns@[id as int].is_open(),
            forall|i: int|
                0 <= i < d.transport_q@.len() ==> #[trigger] d.transport_q@[i] != (
                Event::ConnectionClosed { conn: id }),
        ensures
            forall|i: int|
                0 <= i < d.transport_q@.len() ==> !refs_conn(#[trigger] d.transport_q@[i], id),
            forall|i: int|
                0 <= i < d.discovery_q@.len() ==> !refs_conn(#[trigger] d.discovery_q@[i], id),
            forall|i: int|
                0 <= i < d.identify_q@.len() ==> !refs_conn(#[trigger] d.identify_q@[i], id),
            forall|i: int|
                0 <= i < d.liveness_q@.len() ==> !refs_conn(#[trigger] d.liveness_q@[i], id),
    {
        assert forall|i: int|
            0 <= i < d.transport_q@.len() implies !refs_conn(#[trigger] d.transport_q@[i], id) by {
            assert(d.transport_event_ok(d.transport_q@[i]));
        }
        assert forall|i: int|
            0 <= i < d.discovery_q@.len() implies !refs_conn(#[trigger] d.discovery_q@[i], id) by {
            assert(d.discovery_event_ok(d.discovery_q@[i]));
        }
        assert forall|i: int|
            0 <= i < d.identify_q@.len() implies !refs_conn(#[trigger] d.identify_q@[i], id) by {
            assert(d.identify_event_ok(d.identify_q@[i]));
        }
        assert forall|i: int|
            0 <= i < d.liveness_q@.len() implies !refs_conn(#[trigger] d.liveness_q@[i], id) by {
            assert(d.liveness_event_ok(d.liveness_q@[i]));
        }
    }

    /// Every entry is still well formed and no openness changed between
    /// `pre` and the current state; with at most one acceptable event
    /// appended per queue, the invariant holds again.
    proof fn lemma_entry_update_wf(&self, pre: Self, id: usize)
        requires
            pre.wf(),
            self.conns@.len() == pre.conns@.len(),
            forall|i: int|
                0 <= i < pre.conns@.len() && i != id ==> #[trigger] self.conns@[i]
                    == pre.conns@[i],
            forall|i: int|
                0 <= i < self.conns@.len() ==> (#[trigger] self.conns@[i]).is_open()
                    == pre.conns@[i].is_open() && self.conns@[i].registered_everywhere()
                    == pre.conns@[i].registered_everywhere() && self.conns@[i].registered_nowhere()
                    == pre.conns@[i].registered_nowhere() && (pre.conns@[i].is_open()
                    || (!(#[trigger] self.conns@[i]).probe_in_flight && self.conns@[i].streams
                    == 0)),
            self.transport_q@ == pre.transport_q@ || (self.transport_q@.len() > 0
                && self.transport_q@ == pre.transport_q@.push(self.transport_q@.last())
                && self.transport_event_ok(self.transport_q@.last()) && closed_event_conn(
                self.transport_q@.last(),
            ) is None),
            self.discovery_q@ == pre.discovery_q@ || (self.discovery_q@.len() > 0
                && self.discovery_q@ == pre.discovery_q@.push(self.discovery_q@.last())
                && self.discovery_event_ok(self.discovery_q@.last())),
            self.identify_q@ == pre.identify_q@ || (self.identify_q@.len() > 0 && self.identify_q@
                == pre.identify_q@.push(self.identify_q@.last()) && self.identify_event_ok(
                self.identify_q@.last(),
            )),
            self.liveness_q@ == pre.liveness_q@ || (self.liveness_q@.len() > 0 && self.liveness_q@
                == pre.liveness_q@.push(self.liveness_q@.last()) && self.liveness_event_ok(
                self.liveness_q@.last(),
            )),
        ensures
            self.wf(),
    {
        assert forall|i: int| 0 <= i < self.conns@.len() implies (#[trigger] self.conns@[i]).wf()
        by {
            assert(pre.conns@[i].wf());
        }
        Self::lemma_wf_after_step(pre, *self);
    }

    /// Queue well-formedness depends on the registry only through each
    /// connection's length and openness; any registry change that preserves
    /// both preserves it.
    proof fn lemma_same_openness_preserves_queues(pre: Self, post: Self)
        requires
            pre.wf(),
            post.conns@.len() >= pre.conns@.len(),
            forall|i: int|
                0 <= i < pre.conns@.len() ==> (#[trigger] post.conns@[i]).is_open()
                    == pre.conns@[i].is_open(),
            post.transport_q == pre.transport_q,
            post.discovery_q == pre.discovery_q,
            post.identify_q == pre.identify_q,
            post.liveness_q == pre.liveness_q,
        ensures
            forall|i: int|
                0 <= i < post.transport_q@.len() ==> post.transport_event_ok(
                    #[trigger] post.transport_q@[i],
                ),
            forall|i: int|
                0 <= i < post.discovery_q@.len() ==> post.discovery_event_ok(
                    #[trigger] post.discovery_q@[i],
                ),
            forall|i: int|
                0 <= i < post.identify_q@.len() ==> post.identify_event_ok(
                    #[trigger] post.identify_q@[i],
                ),
            forall|i: int|
                0 <= i < post.liveness_q@.len() ==> post.liveness_event_ok(
                    #[trigger] post.liveness_q@[i],
                ),
    {
        assert forall|i: int|
            0 <= i < post.transport_q@.len() implies post.transport_event_ok(
            #[trigger] post.transport_q@[i],
        ) by {
            assert(pre.transport_event_ok(pre.transport_q@[i]));
        }
        assert forall|i: int|
            0 <= i < post.identify_q@.len() implies post.identify_event_ok(
            #[trigger] post.identify_q@[i],
        ) by {
            assert(pre.identify_event_ok(pre.identify_q@[i]));
        }
        assert forall|i: int|
            0 <= i < post.liveness_q@.len() implies post.liveness_event_ok(
            #[trigger] post.liveness_q@[i],
        ) by {
            assert(pre.liveness_event_ok(pre.liveness_q@[i]));
        }
    }

    /// An event acceptable in some queue stays acceptable after any registry
    /// change that keeps every existing connection's openness.
    proof fn lemma_event_ok_transfer(pre: Self, post: Self)
        requires
            post.conns@.len() >= pre.conns@.len(),
            forall|i: int|
                0 <= i < pre.conns@.len() ==> (#[trigger] post.conns@[i]).is_open()
                    == pre.conns@[i].is_open(),
        ensures
            forall|e: Event| pre.transport_event_ok(e) ==> #[trigger] post.transport_event_ok(e),
            forall|e: Event| pre.discovery_event_ok(e) ==> #[trigger] post.discovery_event_ok(e),
            forall|e: Event| pre.identify_event_ok(e) ==> #[trigger] post.identify_event_ok(e),
            forall|e: Event| pre.liveness_event_ok(e) ==> #[trigger] post.liveness_event_ok(e),
    {
    }

    /// The whole invariant, re-established after one operation that leaves
    /// every queue as it was or appends one acceptable event to it, and
    /// changes the registry without closing or reopening anything.
    proof fn lemma_wf_after_step(pre: Self, post: Self)
        requires
            pre.wf(),
            post.conns@.len() >= pre.conns@.len(),
            forall|i: int|
                0 <= i < pre.conns@.len() ==> (#[trigger] post.conns@[i]).is_open()
                    == pre.conns@[i].is_open(),
            forall|i: int| 0 <= i < post.conns@.len() ==> (#[trigger] post.conns@[i]).wf(),
            post.transport_q@ == pre.transport_q@ || (post.transport_q@.len() > 0
                && post.transport_q@ == pre.transport_q@.push(post.transport_q@.last())
                && post.transport_event_ok(post.transport_q@.last()) && closed_event_conn(
                post.transport_q@.last(),
            ) is None),
            post.discovery_q@ == pre.discovery_q@ || (post.discovery_q@.len() > 0
                && post.discovery_q@ == pre.discovery_q@.push(post.discovery_q@.last())
                && post.discovery_event_ok(post.discovery_q@.last())),
            post.identify_q@ == pre.identify_q@ || (post.identify_q@.len() > 0 && post.identify_q@
                == pre.identify_q@.push(post.identify_q@.last()) && post.identify_event_ok(
                post.identify_q@.last(),
            )),
            post.liveness_q@ == pre.liveness_q@ || (post.liveness_q@.len() > 0 && post.liveness_q@
                == pre.liveness_q@.push(post.liveness_q@.last()) && post.liveness_event_ok(
                post.liveness_q@.last(),
            )),
        ensures
            post.wf(),
    {
        Self::lemma_event_ok_transfer(pre, post);
        assert forall|i: int|
            0 <= i < post.transport_q@.len() implies post.transport_event_ok(
            #[trigger] post.transport_q@[i],
        ) by {
            if i < pre.transport_q@.len() {
                assert(pre.transport_event_ok(pre.transport_q@[i]));
            }
        }
        assert forall|i: int|
            0 <= i < post.discovery_q@.len() implies post.discovery_event_ok(
            #[trigger] post.discovery_q@[i],
        ) by {
            if i < pre.discovery_q@.len() {
                assert(pre.discovery_event_ok(pre.discovery_q@[i]));
            }
        }
        assert forall|i: int|
            0 <= i < post.identify_q@.len() implies post.identify_event_ok(
            #[trigger] post.identify_q@[i],
        ) by {
            if i < pre.identify_q@.len() {
                assert(pre.identify_event_ok(pre.identify_q@[i]));
            }
        }
        assert forall|i: int|
            0 <= i < post.liveness_q@.len() implies post.liveness_event_ok(
            #[trigger] post.liveness_q@[i],
        ) by {
            if i < pre.liveness_q@.len() {
                assert(pre.liveness_event_ok(pre.liveness_q@[i]));
            }
        }
        assert forall|i: int, j: int|
            0 <= i < j < post.transport_q@.len() && closed_event_conn(
                #[trigger] post.transport_q@[i],
            ) is Some implies closed_event_conn(post.transport_q@[i]) != closed_event_conn(
            #[trigger] post.transport_q@[j],
        ) by {
            if j < pre.transport_q@.len() {
                assert(post.transport_q@[i] == pre.transport_q@[i]);
                assert(post.transport_q@[j] == pre.transport_q@[j]);
            } else {
                assert(closed_event_conn(post.transport_q@[j]) is None);
            }
        }
    }
}

} // verus!
