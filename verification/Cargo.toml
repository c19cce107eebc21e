[package]
name = "freenet_core"
version = "0.1.0"
edition = "2021"
publish = false

[dependencies]
aes-gcm = "=0.10.3"
anyhow = "=1.0.104"
axum = "=0.7.9"
blake3 = "=1.8.7"
bs58 = "=0.5.1"
bytes = { version = "=1.12.1", features = ["serde"] }
candle-core = "=0.8.4"
candle-nn = "=0.8.4"
chrono = "=0.4.45"
dashmap = "=6.2.1"
dilithium = "=0.1.2"
ed25519-dalek = "=2.2.0"
freenet-stdlib = "=0.1.40"
frost-secp256k1 = "=2.2.0"
hkdf = "=0.12.4"
io-uring = "=0.7.15"
libc = "=0.2.191"
memmap2 = "=0.9.12"
ml-kem = "=0.2.3"
parking_lot = "=0.12.5"
rand = "=0.4.6"
serde = { version = "=1.0.229", features = ["derive"] }
serde_json = "=1.0.154"
sha2 = "=0.10.9"
shamir_secret_sharing = "=0.1.1"
tfhe = { version = "=0.8.7", features = ["integer", "x86_64-unix"] }
thiserror = "=1.0.69"
tokio = { version = "=1.54.1", features = ["full"] }
tracing = "=0.1.44"
