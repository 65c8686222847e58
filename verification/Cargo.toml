[package]
name = "asset_ledger"
version = "0.1.0"
edition = "2021"
publish = false

[dependencies]
chrono = "*"
structopt = "*"

[dev-dependencies]
serde_json = "*"
