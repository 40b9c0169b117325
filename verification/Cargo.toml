[package]
name = "spl_keyring"
version = "0.1.0"
edition = "2021"
publish = false

[dependencies]
solana-program = "=5.1.0"
solana-sdk = "=5.0.0"
solana-system-interface = { version = "=3.3.0", features = ["bincode"] }
spl-discriminator = "=0.5.2"
thiserror = "=2.0.21"
