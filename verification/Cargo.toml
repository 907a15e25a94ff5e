[package]
name = "chatcall"
version = "0.1.0"
edition = "2021"
publish = false

[dependencies]
bytes = "1"
chacha20poly1305 = "0.10"
x25519-dalek = "2"
rand = "0.8"
uuid = { version = "1", features = ["v4"] }
chrono = "0.4"
serde = { version = "1", features = ["derive"] }
serde_json = "1"
bincode = "1"
thiserror = "1"
tokio = { version = "1", features = ["full"] }
parking_lot = "0.12"
crossbeam-channel = "0.5"
tracing = "0.1"
tracing-subscriber = { version = "0.3", features = ["env-filter"] }
rusqlite = { version = "0.31", features = ["bundled"] }
igd = "0.12"
local-ip-address = "0.6"
reqwest = { version = "0.12", default-features = false, features = ["rustls-tls"] }
opus = "0.3"
cpal = "0.15"
