[package]
name = "korra"
version = "0.1.0"
edition = "2021"
publish = false

[dependencies]
base64 = "0.22"
serde_json = "1"
sha2 = "0.10"
uuid = { version = "1", features = ["v4"] }
