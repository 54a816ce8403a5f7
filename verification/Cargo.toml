[package]
name = "surfpool-jito"
version = "0.1.0"
edition = "2021"
publish = false

[dependencies]
base64 = "=0.22.1"
bincode = "=1.3.3"
bs58 = "=0.5.1"
hex = "=0.4.3"
jsonrpc-core = "=18.0.0"
litesvm = { version = "=0.9.1", default-features = false }
serde = { version = "=1.0.229", features = ["derive"] }
serde_json = "=1.0.154"
sha2 = "=0.10.9"
solana-signature = "=3.1.0"
solana-transaction = { version = "=3.0.2", features = ["bincode", "serde"] }

[dev-dependencies]
solana-hash = "=3.1.0"
solana-keypair = "=3.1.0"
solana-message = "=3.0.1"
solana-pubkey = "=3.0.0"
solana-signer = "=3.0.0"
solana-system-interface = { version = "=2.0.0", features = ["bincode"] }
