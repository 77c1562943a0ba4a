[package]
name = "p2p_core"
version = "0.1.0"
edition = "2021"
publish = false

[dependencies]
libp2p = { version = "0.53", default-features = false, features = ["ed25519", "identify", "ping", "mdns", "noise", "tcp", "yamux", "tokio", "macros"] }
futures = "0.3"
tokio = { version = "1", features = ["rt-multi-thread", "macros"] }
