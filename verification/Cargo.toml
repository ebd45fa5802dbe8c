[package]
name = "bdk_chain"
version = "0.1.0"
edition = "2021"
publish = false

[dependencies]
anyhow = "1"
bitcoin = "0.29"
clap = { version = "4", features = ["derive"] }
electrum-client = "0.12"
serde = { version = "1", features = ["derive"] }
serde_json = "1"
