[package]
name = "wallet_jobs"
version = "0.1.0"
edition = "2021"
publish = false

[dependencies]
bs58 = "0.5"
solana-sdk = "2"
spl-token = "8"
tokio = { version = "1", features = ["rt-multi-thread", "time", "macros"] }
serde = { version = "1", features = ["derive"] }
serde_json = "1"
anyhow = "1"
log = "0.4"
chrono = "0.4"
once_cell = "1"
