[package]
name = "evm_gateway"
version = "0.1.0"
edition = "2021"
publish = false

[dependencies]
web3 = { version = "0.19", default-features = false, features = ["http", "signing"] }
secp256k1 = "0.27"
serde = { version = "1", features = ["derive"] }
toml = "0.8"
anyhow = "1"
dotenv = "0.15"
actix-web = { version = "4", default-features = false, features = ["macros"] }
tokio = { version = "1", features = ["sync", "rt-multi-thread", "macros"] }
