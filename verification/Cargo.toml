[package]
name = "feth"
version = "0.1.0"
edition = "2021"
publish = false

[dependencies]
anyhow = "1"
bip0039 = "*"
bip32 = "*"
chrono = "0.4"
clap = { version = "3", features = ["derive"] }
env_logger = "*"
eth_checksum = "*"
hex = "0.4"
lazy_static = "1"
libsecp256k1 = "0.7"
log = "0.4"
num_cpus = "1"
rayon = "1"
reqwest = "0.11"
secp256k1 = "0.27"
serde = { version = "1", features = ["derive"] }
serde_json = "1"
sha3 = "0.10"
tokio = { version = "1", features = ["full"] }
url = "2"
web3 = { version = "*", default-features = false, features = ["http-tls", "signing"] }
