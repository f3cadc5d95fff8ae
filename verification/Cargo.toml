[package]
name = "poker_table"
version = "0.1.0"
edition = "2021"
publish = false

[dependencies]
hex = "0.4"
serde = { version = "1", features = ["derive"] }
sha2 = "0.10"
soroban-sdk = "*"
tokio = { version = "1", features = ["rt", "sync", "time", "macros"] }
tracing = "0.1"
