[package]
name = "bid_circuits"
version = "0.1.0"
edition = "2021"
publish = false

[dependencies]
halo2-base = "=0.5.5"
snark-verifier-sdk = "=0.2.7"
halo2_proofs = "=0.3.5"
halo2curves = "=0.10.0"
anyhow = "=1.0.104"
clap = { version = "=4.6.7", features = ["derive"] }
hex = "=0.4.3"
rand = "=0.8.8"
