[package]
name = "nft_key"
version = "0.1.0"
edition = "2021"
publish = false

[dependencies]
near-sdk = { version = "=5.29.1", features = ["legacy", "non-contract-usage"] }
near-sdk-contract-tools = "=3.0.2"
