[package]
name = "dnsglobe"
version = "0.1.1"
edition = "2021"
publish = false

[dependencies]
hickory-resolver = "0.24"
ratatui = "0.29"
tokio = { version = "1", features = ["time", "rt", "macros"] }
