[package]
name = "vanity_wallet"
version = "0.1.0"
edition = "2021"
publish = false

[dependencies]
solana-sdk = "*"
rusqlite = { version = "*", features = ["bundled"] }

[dev-dependencies]
serde_json = "*"
