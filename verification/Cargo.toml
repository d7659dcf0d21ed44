[package]
name = "ledger_core"
version = "0.1.0"
edition = "2021"
publish = false

[dependencies]
actix-web = "4"
bitcoin = "0.32"
env_logger = "0.11"
hex = "0.4"
log = "0.4"
r2d2 = "0.8"
r2d2_redis = "0.14"
reqwest = { version = "0.12", default-features = false, features = ["json"] }
serde = { version = "1", features = ["derive"] }
serde_json = "1"
sha2 = "0.10"
