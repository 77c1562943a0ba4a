use p2p_core::transport::{upgrade_outcome, AuthOutcome, UpgradeError};

#[test]
fn failed_handshake_is_an_authentication_error() {
    let r = upgrade_outcome(&None, AuthOutcome::HandshakeFailed, true);
    assert_eq!(r, Err(UpgradeError::Authentication));
}

#[test]
fn mismatched_identity_is_an_authentication_error() {
    // A dial that expected one peer but authenticated another must fail,
    // never silently succeed, even though both handshake stages passed.
    let expected = Some(vec![1u8, 2, 3]);
    let r = upgrade_outcome(&expected, AuthOutcome::Proven { remote: vec![9u8, 9, 9] }, true);
    assert_eq!(r, Err(UpgradeError::Authentication));
}

#[test]
fn multiplex_failure_after_authentication() {
    let r = upgrade_outcome(&None, AuthOutcome::Proven { remote: vec![4u8, 5] }, false);
    assert_eq!(r, Err(UpgradeError::Multiplex));
}

#[test]
fn successful_upgrade_records_the_proven_identity() {
    let r = upgrade_outcome(&None, AuthOutcome::Proven { remote: vec![4u8, 5] }, true);
    assert_eq!(r, Ok(vec![4u8, 5]));
}

#[test]
fn expected_identity_match_succeeds() {
    let expected = Some(vec![7u8, 8]);
    let r = upgrade_outcome(&expected, AuthOutcome::Proven { remote: vec![7u8, 8] }, true);
    assert_eq!(r, Ok(vec![7u8, 8]));
}
