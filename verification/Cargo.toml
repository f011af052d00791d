[package]
name = "shared_tasks"
version = "0.1.0"
edition = "2021"
publish = false

[dependencies]
anyhow = "1"
bytes = "1"
data-encoding = "2"
futures = "0.3"
iroh-gossip = { version = "0.9", default-features = false }
iroh-sync = { version = "0.9", default-features = false }
postcard = { version = "1", default-features = false, features = ["use-std"] }
quic-rpc = { version = "0.6", default-features = false }
quinn = { version = "0.10", default-features = false }
serde = { version = "1", features = ["derive"] }
tokio = { version = "1", features = ["rt", "sync", "time"] }
tokio-util = { version = "0.7", features = ["rt"] }
