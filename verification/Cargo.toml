[package]
name = "wren_session"
version = "0.1.0"
edition = "2021"
publish = false

[dependencies]
sqlparser = { version = "0.52", features = ["visitor"] }
base64 = "0.22"
csv = "1"
serde_json = "1"
