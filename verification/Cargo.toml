[package]
name = "sparse_merkle"
version = "0.1.0"
edition = "2021"
publish = false

[dependencies]
bincode = "1.3"
serde = { version = "1", features = ["derive"] }
solana-hash = "2"
solana-sdk = "2"
solana-sha256-hasher = "2"

[dev-dependencies]
rand = "0.8"
