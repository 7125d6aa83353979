[package]
name = "gigadex"
version = "0.1.0"
edition = "2021"
publish = false

[dependencies]
anchor-lang = "0.28"
anchor-spl = { version = "0.28", default-features = false, features = ["token"] }
anyhow = "1"
borsh = "0.10"
jupiter-amm-interface = "0.1"
solana-sdk = "1.16"
