[package]
name = "asyncart"
version = "0.1.0"
edition = "2021"
publish = false

[dependencies]
solana-program = "=1.18.26"
spl-associated-token-account = "=2.3.0"
