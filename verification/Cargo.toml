[package]
name = "pump_decode"
version = "0.1.0"
edition = "2021"
publish = false

[dependencies]
base64 = "0.22"
bs58 = "0.5"
chrono = "0.4"
serde = { version = "1", features = ["derive"] }
serde_json = "1"

[dev-dependencies]
borsh = "1"
