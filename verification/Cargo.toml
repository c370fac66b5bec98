[package]
name = "rapido"
version = "0.1.0"
edition = "2021"
publish = false

[dependencies]
abci = "=0.7.1"
anyhow = "=1.0.104"
base64 = "=0.13.1"
borsh = "=0.9.3"
bs58 = "=0.4.0"
dirs = "=3.0.2"
ed25519-dalek = "2"
env_logger = "=0.8.4"
exonum-crypto = "=1.0.0"
exonum-merkledb = "=1.0.0"
hex = "=0.4.3"
json = "=0.12.4"
log = "=0.4.34"
protobuf = "=2.15.1"
sha2 = "0.10"
