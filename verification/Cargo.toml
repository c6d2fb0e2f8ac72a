[package]
name = "akareko"
version = "0.1.0"
edition = "2021"
publish = false

[dependencies]
base64 = "=0.22.1"
sha2 = "=0.10.9"
ed25519-dalek = { version = "=2.2.0", features = ["rand_core"] }
rand = "=0.8.8"
data-encoding = "=2.11.1"
unicode-normalization = "=0.1.26"
fastbloom = { version = "=0.17.0", features = ["serde"] }
serde = { version = "=1.0.229", features = ["derive"] }
toml = "=1.1.8"
tokio = { version = "=1.54.1", features = ["io-util", "fs", "time", "sync", "rt-multi-thread", "macros", "net"] }
