[package]
name = "rlviser"
version = "0.1.0"
edition = "2021"
publish = false

[dependencies]
itoa = "=1.0.18"
radsort = "=0.1.1"
crossbeam-channel = "=0.5.17"
ahash = "0.8"
serde = { version = "1", features = ["derive"] }
serde_json = "1"
