[package]
name = "hen_local"
version = "0.1.0"
edition = "2021"
publish = false

[dependencies]
anyhow = "=1.0.104"
base64 = "=0.22.1"
chrono = "=0.4.45"
crossbeam-channel = "=0.5.17"
dirs = "=5.0.1"
ed25519-dalek = "=2.2.0"
hound = "=3.5.1"
keyring = "=3.6.3"
log = "=0.4.35"
parking_lot = "=0.12.5"
rand = "=0.8.8"
reqwest = { version = "=0.12.28", default-features = false, features = ["json", "rustls-tls"] }
serde = { version = "=1.0.229", features = ["derive"] }
serde_json = "=1.0.154"
sha2 = "=0.10.9"
tokio = { version = "=1.54.1", features = ["rt", "net", "time"] }
tracing = "=0.1.44"
url = "=2.5.8"

[dev-dependencies]
