[package]
name = "deriverse"
version = "0.1.0"
edition = "2021"
publish = false

[dependencies]
rust_decimal = "=1.43.0"
anyhow = "=1.0.104"
bytemuck = "=1.25.2"
solana-sdk = "=2.3.1"
