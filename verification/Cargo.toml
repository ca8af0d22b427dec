[package]
name = "solana-tx-retry"
version = "0.1.0"
edition = "2021"
publish = false

[dependencies]
dashmap = "6"
rand = "0.8"
solana-rpc-client = { version = "~2.1", default-features = false }
solana-rpc-client-api = "~2.1"
solana-sdk = { version = "~2.1", default-features = false, features = ["full"] }
solana-transaction-status-client-types = "~2.1"
thiserror = "2"
tokio = { version = "1", features = ["sync", "time"] }
tracing = "0.1"
