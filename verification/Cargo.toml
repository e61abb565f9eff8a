[package]
name = "ai_client"
version = "0.1.0"
edition = "2021"
publish = false

[dependencies]
base64 = "=0.23.1"
bon = "=3.10.2"
futures = "=0.3.34"
reqwest = { version = "=0.13.5", default-features = false, features = ["json", "stream"] }
reqwest-streams = { version = "=0.20.0", features = ["json"] }
serde = { version = "=1.0.229", features = ["derive"] }
serde_json = "=1.0.151"
serde_with = "=3.24.0"
strum = { version = "=0.28.0", features = ["derive"] }
thiserror = "=2.0.21"
tracing = "=0.1.44"
