[package]
name = "kormir"
version = "0.1.0"
edition = "2021"
publish = false

[dependencies]
bitcoin = { version = "0.29.2", features = ["rand"] }
dlc-messages = "0.4.0"
lightning = "0.0.113"
base64 = "0.13"
hex = "0.4"
serde = { version = "1", features = ["derive"] }
serde_json = "1"
nostr = "0.28"
nostr-sdk = "0.28"
tokio = { version = "1", features = ["rt", "macros"] }
