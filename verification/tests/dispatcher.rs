use p2p_core::dispatcher::{ConnPhase, Dispatcher, IdentifyPhase};
use p2p_core::events::{Event, IdentifyRecord, ProbeOutcome};
use p2p_core::identity::generate;
use p2p_core::transport::{AuthOutcome, UpgradeError};

fn register(d: &mut Dispatcher, remote: Vec<u8>) -> usize {
    d.admit_connection(&None, AuthOutcome::Proven { remote }, true)
        .expect("successful upgrade must register")
}

fn record() -> IdentifyRecord {
    IdentifyRecord {
        agent: b"rust-p2p-example/1.0.0".to_vec(),
        public_key: vec![1, 2, 3],
        listen_addrs: vec![vec![10, 0, 0, 1]],
    }
}

#[test]
fn failed_upgrade_registers_no_connection() {
    let mut d = Dispatcher::new();
    let r = d.admit_connection(&None, AuthOutcome::HandshakeFailed, true);
    assert_eq!(r, Err(UpgradeError::Authentication));
    assert_eq!(d.connection_count(), 0);
    assert_eq!(d.poll(), None);
}

#[test]
fn mismatched_dial_registers_no_connection() {
    // Dialing an address where the authenticated identity is not the one
    // expected: the attempt fails and nothing becomes visible to handlers.
    let mut d = Dispatcher::new();
    let expected = Some(vec![1u8, 2, 3]);
    let r = d.admit_connection(&expected, AuthOutcome::Proven { remote: vec![9u8] }, true);
    assert_eq!(r, Err(UpgradeError::Authentication));
    assert_eq!(d.connection_count(), 0);
    assert!(!d.is_connection_open(0));
}

#[test]
fn successful_upgrade_binds_the_proven_identity() {
    let mut d = Dispatcher::new();
    let id = register(&mut d, vec![42u8, 43]);
    assert_eq!(id, 0);
    assert_eq!(d.remote_identity(id), Some(&vec![42u8, 43]));
    assert!(d.is_connection_open(id));
}

#[test]
fn identification_runs_exactly_once() {
    let mut d = Dispatcher::new();
    let id = register(&mut d, vec![1u8]);
    assert!(d.begin_identify(id));
    assert!(!d.begin_identify(id));
    // Opening more logical streams never re-enables the exchange.
    assert!(d.open_stream(id));
    assert!(d.open_stream(id));
    assert!(!d.begin_identify(id));
    assert!(d.complete_identify(id, record()));
    assert!(!d.begin_identify(id));
    assert!(!d.complete_identify(id, record()));
}

#[test]
fn probes_on_one_connection_are_sequential() {
    let mut d = Dispatcher::new();
    let id = register(&mut d, vec![1u8]);
    assert!(d.activate(id));
    assert!(d.start_probe(id));
    assert!(!d.start_probe(id));
    assert!(d.finish_probe(id, ProbeOutcome::Rtt(12)));
    assert!(d.start_probe(id));
}

#[test]
fn probes_on_distinct_connections_interleave() {
    let mut d = Dispatcher::new();
    let a = register(&mut d, vec![1u8]);
    let b = register(&mut d, vec![2u8]);
    assert!(d.activate(a));
    assert!(d.activate(b));
    assert!(d.start_probe(a));
    assert!(d.start_probe(b));
    assert!(d.finish_probe(b, ProbeOutcome::Failed));
    assert!(d.finish_probe(a, ProbeOutcome::Rtt(3)));
    assert_eq!(d.conns[b].consecutive_failures, 1);
    assert_eq!(d.conns[a].consecutive_failures, 0);
}

#[test]
fn consecutive_failures_reset_on_answer() {
    let mut d = Dispatcher::new();
    let id = register(&mut d, vec![1u8]);
    assert!(d.activate(id));
    for _ in 0..3 {
        assert!(d.start_probe(id));
        assert!(d.finish_probe(id, ProbeOutcome::Failed));
    }
    assert_eq!(d.conns[id].consecutive_failures, 3);
    assert!(d.start_probe(id));
    assert!(d.finish_probe(id, ProbeOutcome::Rtt(8)));
    assert_eq!(d.conns[id].consecutive_failures, 0);
}

#[test]
fn close_removes_from_all_handlers_and_purges_events() {
    let mut d = Dispatcher::new();
    let id = register(&mut d, vec![1u8]);
    assert!(d.begin_identify(id));
    assert!(d.activate(id));
    assert!(d.start_probe(id));
    assert!(d.finish_probe(id, ProbeOutcome::Rtt(4)));
    assert!(d.complete_identify(id, record()));
    // Events about the connection are pending; closing must drop them all
    // and report the closure as the one remaining event about it.
    assert!(d.close_connection(id));
    assert!(!d.conns[id].in_discovery);
    assert!(!d.conns[id].in_identify);
    assert!(!d.conns[id].in_liveness);
    assert_eq!(d.conns[id].streams, 0);
    assert_eq!(d.poll(), Some(Event::ConnectionClosed { conn: id }));
    assert_eq!(d.poll(), None);
    // No handler operation reaches the removed connection.
    assert!(!d.begin_identify(id));
    assert!(!d.start_probe(id));
    assert!(!d.open_stream(id));
    assert!(!d.finish_probe(id, ProbeOutcome::Failed));
    assert!(!d.close_connection(id));
}

#[test]
fn closing_one_connection_leaves_others_alone() {
    let mut d = Dispatcher::new();
    let a = register(&mut d, vec![1u8]);
    let b = register(&mut d, vec![2u8]);
    assert!(d.begin_identify(a));
    assert!(d.begin_identify(b));
    assert!(d.identify_timeout(a));
    assert!(d.identify_timeout(b));
    assert!(d.close_connection(a));
    assert_eq!(d.poll(), Some(Event::ConnectionClosed { conn: a }));
    // The other connection's pending event survived the purge.
    assert_eq!(d.poll(), Some(Event::IdentifyTimeout { conn: b }));
    assert_eq!(d.poll(), None);
    assert!(d.is_connection_open(b));
}

#[test]
fn identify_timeout_leaves_the_connection_active() {
    let mut d = Dispatcher::new();
    let id = register(&mut d, vec![1u8]);
    assert!(d.activate(id));
    assert!(d.begin_identify(id));
    assert!(d.identify_timeout(id));
    assert_eq!(d.poll(), Some(Event::IdentifyTimeout { conn: id }));
    // The connection stays active: liveness probing continues.
    assert_eq!(d.conns[id].phase, ConnPhase::Active);
    assert_eq!(d.conns[id].identify, IdentifyPhase::TimedOut);
    assert!(d.start_probe(id));
}

#[test]
fn poll_order_is_transport_discovery_identify_liveness() {
    let mut d = Dispatcher::new();
    let id = register(&mut d, vec![1u8]);
    assert!(d.activate(id));
    assert!(d.begin_identify(id));
    assert!(d.start_probe(id));
    // Enqueue in reverse of the tie-break order.
    assert!(d.finish_probe(id, ProbeOutcome::Rtt(2)));
    assert!(d.complete_identify(id, record()));
    d.observe_discovery(vec![5u8], vec![6u8]);
    d.new_listen_addr(vec![7u8]);
    assert_eq!(d.poll(), Some(Event::NewListenAddr { addr: vec![7u8] }));
    assert_eq!(d.poll(), Some(Event::Discovered { peer: vec![5u8], addr: vec![6u8] }));
    assert_eq!(
        d.poll(),
        Some(Event::IdentifyReceived { conn: id, record: record() })
    );
    assert_eq!(
        d.poll(),
        Some(Event::LivenessResult { conn: id, outcome: ProbeOutcome::Rtt(2) })
    );
    assert_eq!(d.poll(), None);
}

#[test]
fn events_of_one_handler_keep_their_order() {
    let mut d = Dispatcher::new();
    d.observe_discovery(vec![1u8], vec![10u8]);
    d.observe_discovery(vec![1u8], vec![11u8]);
    d.observe_discovery(vec![2u8], vec![12u8]);
    assert_eq!(d.poll(), Some(Event::Discovered { peer: vec![1u8], addr: vec![10u8] }));
    assert_eq!(d.poll(), Some(Event::Discovered { peer: vec![1u8], addr: vec![11u8] }));
    assert_eq!(d.poll(), Some(Event::Discovered { peer: vec![2u8], addr: vec![12u8] }));
}

#[test]
fn two_nodes_discover_each_other() {
    // Two nodes on the same local network, no prior configuration: within
    // one discovery cycle each reports the other's identifier and address.
    let node_a = generate().expect("key generation failed");
    let node_b = generate().expect("key generation failed");
    let mut a = Dispatcher::new();
    let mut b = Dispatcher::new();
    let addr_a = vec![192, 168, 0, 10];
    let addr_b = vec![192, 168, 0, 11];
    // Each observes the other's presence announcement.
    a.observe_discovery(node_b.node_id.clone(), addr_b.clone());
    b.observe_discovery(node_a.node_id.clone(), addr_a.clone());
    assert_eq!(
        a.poll(),
        Some(Event::Discovered { peer: node_b.node_id.clone(), addr: addr_b })
    );
    assert_eq!(
        b.poll(),
        Some(Event::Discovered { peer: node_a.node_id.clone(), addr: addr_a })
    );
}
