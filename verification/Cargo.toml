[package]
name = "cryprq"
version = "0.1.0"
edition = "2021"
publish = false

[dependencies]
anyhow = "1"
blake3 = "1"
bs58 = "0.5"
chacha20poly1305 = "0.10"
clap = { version = "4", features = ["derive"] }
crossbeam = "0.8"
ed25519-dalek = "2"
env_logger = "0.11"
hkdf = "0.12"
log = "0.4"
pqcrypto-mlkem = "*"
pqcrypto-traits = "*"
rand = "0.8"
sha2 = "0.10"
tokio = { version = "1", features = ["full"] }
x25519-dalek = { version = "2", features = ["static_secrets"] }
zeroize = "1"
