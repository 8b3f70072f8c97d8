[package]
name = "avail-light-core"
version = "0.1.0"
edition = "2021"
publish = false

[dependencies]
color-eyre = "0.6"
hex = "0.4"
libp2p = { version = "0.54", default-features = false, features = ["autonat", "dcutr", "dns", "ed25519", "identify", "kad", "macros", "mdns", "noise", "ping", "relay", "tcp", "tokio", "upnp", "websocket", "yamux"] }
libp2p-allow-block-list = "0.4"
multihash = { version = "0.14", default-features = false, features = ["sha3"] }
rand = "0.8"
semver = "1"
serde = { version = "1", features = ["derive"] }
serde_json = "1"
tokio = { version = "1", features = ["sync"] }
tracing = "0.1"
