//! The transport stack's upgrade pipeline: raw stream, then the secure
//! channel negotiator, then the stream multiplexer, in fixed order. The
//! decision of whether an attempt yields a connection — and bound to which
//! remote identity — is made here; the byte-level handshakes themselves are
//! the outside collaborators' work and reach this logic only as outcomes.

use vstd::prelude::*;

verus! {

/// What the secure channel negotiator reported for one connection attempt:
/// the remote identity it authenticated, or a failed handshake (a handshake
/// error and a malformed handshake message both end here).
pub enum AuthOutcome {
    Proven { remote: Vec<u8> },
    HandshakeFailed,
}

/// Why a connection attempt was abandoned. Per-connection and non-fatal:
/// the failed dial or accept is discarded and the node keeps operating.
#[derive(Clone, Copy, Debug, PartialEq, Eq, Structural)]
pub enum UpgradeError {
    /// The secure-channel stage failed, or the authenticated identity did
    /// not match the identity the dial expected.
    Authentication,
    /// The multiplexer handshake failed after authentication succeeded.
    Multiplex,
}

/// The identity the negotiator proved, if it proved one.
pub open spec fn auth_view(auth: AuthOutcome) -> Option<Seq<u8>> {
    match auth {
        AuthOutcome::Proven { remote } => Some(remote@),
        AuthOutcome::HandshakeFailed => None,
    }
}

/// View of an optional expected identity as byte sequences.
pub open spec fn opt_bytes_view(o: Option<Vec<u8>>) -> Option<Seq<u8>> {
    match o {
        Some(v) => Some(v@),
        None => None,
    }
}

/// View of an upgrade result as byte sequences.
pub open spec fn upgrade_result_view(r: Result<Vec<u8>, UpgradeError>) -> Result<
    Seq<u8>,
    UpgradeError,
> {
    match r {
        Ok(v) => Ok(v@),
        Err(e) => Err(e),
    }
}

/// What the whole upgrade pipeline yields. Authentication must succeed
/// first — and, on a dial that expects a particular peer, prove exactly
/// that peer — then the multiplexer handshake; a connection bound to the
/// proven remote identity results only when both stages succeeded.
pub open spec fn upgrade_spec(
    expected: Option<Seq<u8>>,
    auth: Option<Seq<u8>>,
    mux_ok: bool,
) -> Result<Seq<u8>, UpgradeError> {
    match auth {
        None => Err(UpgradeError::Authentication),
        Some(remote) => match expected {
            Some(e) => if e != remote {
                Err(UpgradeError::Authentication)
            } else if !mux_ok {
                Err(UpgradeError::Multiplex)
            } else {
                Ok(remote)
            },
            None => if !mux_ok {
                Err(UpgradeError::Multiplex)
            } else {
                Ok(remote)
            },
        },
    }
}

/// Decide one connection attempt from the two stage outcomes. A successful
/// upgrade records exactly the identity proven during authentication; a
/// mismatch against the expected identity fails with
/// `UpgradeError::Authentication` and never yields a connection.
pub fn upgrade_outcome(expected: &Option<Vec<u8>>, auth: AuthOutcome, mux_ok: bool) -> (r: Result<
    Vec<u8>,
    UpgradeError,
>)
    ensures
        upgrade_result_view(r) == upgrade_spec(opt_bytes_view(*expected), auth_view(auth), mux_ok),
{
    match auth {
        AuthOutcome::HandshakeFailed => Err(UpgradeError::Authentication),
        AuthOutcome::Proven { remote } => {
            match expected {
                Some(e) => {
                    if !crate::identity::bytes_eq(e, &remote) {
                        Err(UpgradeError::Authentication)
                    } else if !mux_ok {
                        Err(UpgradeError::Multiplex)
                    } else {
                        Ok(remote)
                    }
                },
                None => {
                    if !mux_ok {
                        Err(UpgradeError::Multiplex)
                    } else {
                        Ok(remote)
                    }
                },
            }
        },
    }
}

/// Law: a successful upgrade is bound to the authenticated identity — it
/// returns exactly the identity the negotiator proved, and when a dial
/// expected a particular peer, only that peer. A mismatched identity never
/// silently succeeds: it fails as an authentication error.
pub proof fn lemma_upgrade_binds_identity(
    expected: Option<Seq<u8>>,
    auth: Option<Seq<u8>>,
    mux_ok: bool,
)
    ensures
        upgrade_spec(expected, auth, mux_ok) matches Ok(id) ==> auth == Some(id),
        upgrade_spec(expected, auth, mux_ok) matches Ok(id) ==> (expected is Some ==> expected
            == Some(id)),
        (auth matches Some(p) && expected matches Some(e) && p != e) ==> upgrade_spec(
            expected,
            auth,
            mux_ok,
        ) == Err::<Seq<u8>, UpgradeError>(UpgradeError::Authentication),
{
}

} // verus!
