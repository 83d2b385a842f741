[package]
name = "kotoba"
version = "0.1.0"
edition = "2021"
publish = false

[dependencies]
blake3 = "=1.8.7"
base64 = "=0.23.1"
hex = "=0.4.3"
multihash-codetable = { version = "=0.2.2", features = ["sha2"] }
multibase = "=0.9.3"
ipld-core = "=0.4.3"
ed25519-dalek = "=2.2.0"
k256 = { version = "0.13", default-features = false, features = ["ecdsa", "std"] }
sha3 = "=0.11.0"
serde = { version = "=1.0.229", features = ["derive"] }
serde_json = "=1.0.154"
ciborium = "=0.2.2"
thiserror = "=2.0.21"
anyhow = "=1.0.104"
bytes = "=1.12.1"
tokio = { version = "=1.54.1", features = ["sync", "rt-multi-thread", "macros", "net"] }
axum = "=0.8.9"
tower-http = { version = "=0.6.11", features = ["trace"] }
tracing = "=0.1.44"
tracing-subscriber = { version = "=0.3.23", features = ["env-filter"] }
clap = { version = "=4.6.7", features = ["derive", "env"] }
reqwest = { version = "=0.13.5", default-features = false, features = ["json"] }
urlencoding = "=2.1.3"
sled = "=0.34.7"
socket2 = "=0.6.5"
