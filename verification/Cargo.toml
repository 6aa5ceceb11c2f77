[package]
name = "rust_tx_engine"
version = "0.1.0"
edition = "2021"
publish = false

[dependencies]
rust_decimal = "1"
serde = { version = "1", features = ["derive"] }
csv = "1"
thiserror = "1"

[dev-dependencies]
rand = "0.8"
