[package]
name = "dban"
version = "0.1.0"
edition = "2021"
publish = false

[dependencies]
base64 = "=0.22.1"
keyring = { version = "=3.6.3", features = ["windows-native"] }
serde = { version = "=1.0.229", features = ["derive"] }
serde_json = "=1.0.154"
