[package]
name = "backtest_core"
version = "0.1.0"
edition = "2021"
publish = false

[dependencies]
rust_decimal = "=1.43.0"
chrono = { version = "=0.4.45", features = ["serde"] }
serde = { version = "=1.0.229", features = ["derive"] }
serde_json = "=1.0.154"
rand = "=0.8.8"
statrs = "=0.17.1"
rayon = "=1.12.0"
anyhow = "=1.0.104"
async-trait = "=0.1.92"
