[package]
name = "satoshi_wallet"
version = "0.1.0"
edition = "2021"
publish = false

[dependencies]
bdk = { version = "=0.28.2", default-features = false, features = ["std", "keys-bip39", "electrum"] }
base64 = "=0.21.7"
serde = { version = "=1.0.229", features = ["derive"] }
reqwest = { version = "=0.11.27", default-features = false, features = ["blocking", "json"] }
dotenv = "=0.15.0"
env_logger = "=0.10.2"
