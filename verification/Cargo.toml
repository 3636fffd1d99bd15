[package]
name = "liquidator"
version = "0.1.0"
edition = "2021"
publish = false

[dependencies]
hex = "0.4"
bs58 = "0.5"
rayon = "1"
spl-token = "6"
solana-sdk = "2.2"
