[package]
name = "mrcli"
version = "0.1.0"
edition = "2021"
publish = false

[dependencies]
anyhow = "=1.0.104"
chrono = "=0.4.45"
crossterm = "=0.28.1"
dirs = "=5.0.1"
mysql = { version = "=28.0.4", default-features = false, features = ["minimal-rust"] }
ratatui = "=0.29.0"
serde = { version = "=1.0.229", features = ["derive"] }
serde_json = "=1.0.154"
tui-textarea = "=0.7.0"
