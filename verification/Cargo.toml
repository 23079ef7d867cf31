[package]
name = "blockify"
version = "0.1.0"
edition = "2021"
publish = false

[dependencies]
ed25519-dalek = { version = "=2.2.0", features = ["rand_core"] }
sha2 = "=0.10.9"
hex = "=0.4.3"
rand = "=0.8.8"
chrono = "=0.4.45"
serde = { version = "1", features = ["derive"] }
serde_json = "1"
