[package]
name = "swarm_p2p_core"
version = "0.1.0"
edition = "2021"
publish = false

[dependencies]
anyhow = "=1.0.104"
async-trait = "=0.1.92"
clap = { version = "=4.6.7", features = ["derive"] }
futures = "=0.3.34"
libp2p = { version = "=0.57.1", features = ["autonat", "cbor", "dcutr", "dns", "ed25519", "identify", "kad", "macros", "mdns", "noise", "ping", "quic", "relay", "request-response", "serde", "tcp", "tokio", "yamux"] }
parking_lot = "=0.13.0"
serde = { version = "=1.0.229", features = ["derive"] }
thiserror = "=2.0.21"
tokio = { version = "=1.54.1", features = ["full"] }
tracing = "=0.1.44"
tracing-subscriber = { version = "=0.3.23", features = ["env-filter"] }
