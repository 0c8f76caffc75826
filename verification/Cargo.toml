[package]
name = "osint_studio"
version = "0.1.0"
edition = "2021"
publish = false

[dependencies]
uuid = { version = "=1.27.0", features = ["v4", "serde"] }
chrono = { version = "=0.4.45", features = ["serde"] }
serde_json = "=1.0.151"
serde = { version = "=1.0.229", features = ["derive"] }
base64 = "=0.22.1"
