[package]
name = "clock_monitor"
version = "0.1.0"
edition = "2021"
publish = false

[dependencies]
solana-pubsub-client = "=2.3.13"
solana-rpc-client-api = "=2.3.13"
solana-account-decoder = "=2.3.13"
solana-account = "=2.2.1"
solana-pubkey = "=2.4.0"
solana-commitment-config = "=2.2.1"
