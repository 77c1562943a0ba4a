//! Core of a peer-to-peer node: an identity provider that derives a stable
//! node identifier from a public key, a transport upgrade pipeline that
//! yields authenticated multiplexed connections, and a composite behaviour
//! dispatcher that owns the connection set, drives three protocol handlers
//! (discovery, identification, liveness), and merges their outputs into one
//! tagged event stream consumed by an event loop.

pub mod dispatcher;
pub mod events;
pub mod identity;
pub mod reaction;
pub mod transport;
