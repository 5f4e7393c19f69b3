[package]
name = "wallet_balances"
version = "0.1.0"
edition = "2021"
publish = false

[dependencies]
anyhow = "1"
serde = { version = "1", features = ["derive"] }
serde_json = "1"
serde_yaml = "0.9"
solana-account-decoder-client-types = "2"
solana-sdk = { version = "2", default-features = false }
tokio = { version = "1", features = ["macros", "rt-multi-thread"] }
