[package]
name = "landingbench"
version = "0.1.0"
edition = "2021"
publish = false

[dependencies]
anyhow = "1"
arc-swap = "1"
bincode = "=1.3.3"
blake3 = "1"
bs58 = "=0.5.1"
futures = "0.3"
prost = "0.13"
quinn = { version = "=0.11.12", default-features = false, features = ["runtime-tokio", "rustls-ring"] }
serde = { version = "1", features = ["derive"] }
solana-account = "=2.2.1"
solana-commitment-config = "=2.2.1"
solana-compute-budget-interface = { version = "=2.2.2", features = ["borsh"] }
solana-instruction = "=2.3.3"
solana-keypair = "=2.2.3"
solana-message = "=2.4.0"
solana-nonce = "=2.2.1"
solana-pubkey = "=2.4.0"
solana-rpc-client = { version = "=2.3.13", default-features = false }
solana-rpc-client-api = "=2.3.13"
solana-rpc-client-nonce-utils = "=2.3.13"
solana-signature = "=2.3.0"
solana-system-interface = { version = "=1.0.0", features = ["bincode"] }
solana-tls-utils = "=2.3.13"
solana-transaction = { version = "=2.2.3", features = ["bincode"] }
tokio = { version = "1", features = ["full"] }
toml = "0.8"
tonic = { version = "0.12", features = ["tls", "tls-native-roots"] }
tracing = "0.1"
tracing-subscriber = { version = "0.3", features = ["env-filter"] }
url = "2"
