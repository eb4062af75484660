[package]
name = "nostr-sync"
version = "0.1.0"
edition = "2021"
publish = false

[dependencies]
nostr = "*"
nostr-sdk = "*"
nostr-sqlite = "*"
nostr-gossip-sqlite = "*"
tokio = { version = "1", features = ["full"] }
axum = "*"
askama = "*"
serde = { version = "1", features = ["derive"] }
toml = "*"
dirs = "*"
tracing = "*"
tracing-subscriber = "*"
thiserror = "*"
