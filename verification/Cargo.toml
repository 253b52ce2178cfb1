[package]
name = "mimo_tts"
version = "0.1.0"
edition = "2021"
publish = false

[dependencies]
uuid = { version = "=1.29.0", features = ["v4", "v7"] }
chrono = "=0.4.45"
base64 = "=0.22.1"
linked-hash-map = "=0.5.6"
serde = { version = "=1.0.229", features = ["derive"] }
serde_json = "=1.0.154"
dotenvy = "=0.15.7"

[dev-dependencies]
rusqlite = { version = "*", features = ["bundled"] }
