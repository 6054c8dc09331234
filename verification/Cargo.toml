[package]
name = "little_squid_cli"
version = "0.1.0"
edition = "2021"
publish = false

[dependencies]
serde_json = "1"
polars = { version = "*", default-features = false, features = ["parquet"] }
reqwest = { version = "*", features = ["json"] }
tokio = { version = "1", features = ["rt-multi-thread", "macros"] }
crossbeam = "0.8"
indicatif = "0.17"
clap = { version = "4", features = ["derive"] }
