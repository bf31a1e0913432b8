[package]
name = "jet_black"
version = "0.1.0"
edition = "2021"
publish = false

[dependencies]
sha2 = "=0.10.9"
subtle = "=2.6.1"
uuid = "=1.29.1"
getrandom = "=0.3.4"
base64 = "=0.22.1"
rusqlite = { version = "=0.41.1", features = ["bundled"] }
serde = { version = "=1.0.229", features = ["derive"] }
serde_json = "1"
fs2 = "=0.4.3"
http = "=1.5.0"
