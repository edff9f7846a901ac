[package]
name = "ether_pinger"
version = "0.1.0"
edition = "2021"
publish = false

[dependencies]
anyhow = "1"
chrono = "0.4"
crossterm = "0.28"
parking_lot = "0.12"
quick-xml = "0.37"
rand = "0.8"
ratatui = "0.29"
reqwest = { version = "0.12", default-features = false }
surge-ping = "0.8"
tokio = { version = "1", features = ["full"] }
