[package]
name = "transaction_pool"
version = "0.1.0"
edition = "2021"
publish = false

[dependencies]
tokio = { version = "*", features = ["sync", "rt", "rt-multi-thread", "macros"] }
rand = "*"
parking_lot = "*"
