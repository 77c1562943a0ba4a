use p2p_core::events::{Event, IdentifyRecord, ProbeOutcome};
use p2p_core::reaction::{react, Reaction};

#[test]
fn listen_addresses_are_reported() {
    let r = react(Event::NewListenAddr { addr: vec![1, 2] });
    assert!(matches!(r, Reaction::ReportListenAddr { addr } if addr == vec![1, 2]));
}

#[test]
fn discovered_peers_are_reported() {
    let r = react(Event::Discovered { peer: vec![3], addr: vec![4] });
    assert!(matches!(
        r,
        Reaction::ReportDiscovered { peer, addr } if peer == vec![3] && addr == vec![4]
    ));
}

#[test]
fn identification_results_are_reported() {
    let record = IdentifyRecord { agent: vec![7], public_key: vec![8], listen_addrs: vec![] };
    let r = react(Event::IdentifyReceived { conn: 2, record: record.clone() });
    assert!(matches!(
        r,
        Reaction::ReportIdentification { conn: 2, record: Some(rec) } if rec == record
    ));
    let t = react(Event::IdentifyTimeout { conn: 2 });
    assert!(matches!(t, Reaction::ReportIdentification { conn: 2, record: None }));
}

#[test]
fn liveness_results_are_reported() {
    let r = react(Event::LivenessResult { conn: 1, outcome: ProbeOutcome::Rtt(9) });
    assert!(matches!(
        r,
        Reaction::ReportLiveness { conn: 1, outcome: ProbeOutcome::Rtt(9) }
    ));
}

#[test]
fn other_events_are_ignored() {
    let r = react(Event::ConnectionClosed { conn: 0 });
    assert!(matches!(r, Reaction::Ignore));
}
