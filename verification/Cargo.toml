[package]
name = "procmon_core"
version = "0.1.0"
edition = "2021"
publish = false

[dependencies]
anyhow = "1"
chrono = "0.4"
crossterm = "0.28"
parking_lot = "0.12"
ratatui = "0.28"
serde = { version = "1", features = ["derive"] }
serde_json = "1"
sysinfo = "0.31"
