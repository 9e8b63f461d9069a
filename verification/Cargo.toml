[package]
name = "storage_continuity"
version = "0.1.0"
edition = "2021"
publish = false

[dependencies]
sha2 = "0.9"
sha3 = "0.9"
blake3 = { version = "1", features = ["pure"] }
crc = "3"
hmac = "0.10"
ed25519-dalek = "1"
hex = "0.4"
rs_merkle = "1"
rand = "0.8"
rand_chacha = "0.3"
getrandom = "0.2"
serde = { version = "1", features = ["derive"] }
serde_json = "1"
chrono = "0.4"
colored = "2"
log = "0.4"
env_logger = "0.10"
memmap2 = "0.9"
rayon = "1"
thiserror = "1"
