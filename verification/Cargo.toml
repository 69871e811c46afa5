[package]
name = "polymarket_cli"
version = "0.1.0"
edition = "2021"
publish = false

[dependencies]
alloy = { version = "*", default-features = false }
anyhow = "1"
clap = { version = "4", features = ["derive"] }
rust_decimal = "1"
serde_json = "1"
tokio = { version = "1", features = ["rt-multi-thread", "macros", "time"] }
