[package]
name = "dbgm"
version = "0.1.0"
edition = "2021"
publish = false

[dependencies]
base64 = "0.22"
blake2 = "0.10"
image = "0.24"
serde = { version = "1", features = ["derive"] }
serde_json = "1"
