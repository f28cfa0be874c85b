[package]
name = "stateset_core"
version = "0.1.0"
edition = "2021"
publish = false

[dependencies]
sha2 = "0.10"
validator = "0.16"
uuid = { version = "1", features = ["v4"] }
rust_decimal = "1"
chrono = "0.4"
dashmap = "5"
argon2 = "0.5"
rand = "0.8"
serde = { version = "1", features = ["derive"] }
serde_json = "1"
regex = "1"
