[package]
name = "zkbpf"
version = "0.1.0"
edition = "2021"
publish = false

[dependencies]
halo2-base = "=0.5.5"
solana-sbpf = "=0.25.0"
solana-pubkey = "=4.4.0"
serde = { version = "=1.0.229", features = ["derive"] }
serde_json = "=1.0.151"
rand = "=0.8.8"
anyhow = "=1.0.104"
