[package]
name = "procora_tui"
version = "0.1.0"
edition = "2021"
publish = false

[dependencies]
ratatui = "*"
crossterm = "*"
serde = { version = "*", features = ["derive"] }
serde_json = "*"
