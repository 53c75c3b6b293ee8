[package]
name = "ws_chat"
version = "0.1.0"
edition = "2021"
publish = false

[dependencies]
base64 = "0.22"
regex = "1"
serde_json = "1"
sha1 = "0.10"
uuid = { version = "1", features = ["v4"] }
