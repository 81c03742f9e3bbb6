[package]
name = "w3bay"
version = "0.1.0"
edition = "2021"
publish = false

[dependencies]
cosmwasm-std = { version = "2", features = ["stargate"] }
cw-utils = "2"
cw-storage-plus = "2"
cw2 = "2"
cosmwasm-schema = "2"
anyhow = "1"
serde = { version = "1", features = ["derive"] }
