[package]
name = "whispernet"
version = "0.1.0"
edition = "2021"
publish = false

[dependencies]
x25519-dalek = { version = "2", features = ["static_secrets", "getrandom", "serde"] }
ed25519-dalek = { version = "2", features = ["rand_core", "serde"] }
rand_core = { version = "0.6", features = ["getrandom"] }
hkdf = "0.12"
sha2 = "0.10"
sha3 = "0.10"
data-encoding = "2"
hex = "0.4"
bincode = "1"
serde = { version = "1", features = ["derive"] }
tokio = { version = "1", features = ["rt-multi-thread", "macros", "io-util", "io-std", "net"] }
futures = "0.3"
anyhow = "1"
rusqlite = { version = "0.31", features = ["bundled"] }
