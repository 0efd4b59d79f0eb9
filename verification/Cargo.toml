[package]
name = "rust_blockchain_seman"
version = "0.1.0"
edition = "2021"
publish = false

[dependencies]
rust-crypto = "0.2.36"
chrono = "0.4"
