[package]
name = "simple_ica_client"
version = "0.1.0"
edition = "2021"
publish = false

[dependencies]
cosmwasm-std = { version = "=1.5.11", default-features = false, features = ["ibc3"] }
cosmwasm-storage = "=1.5.2"
serde = "1"
schemars = "0.8"
