[package]
name = "replaydb"
version = "0.1.0"
edition = "2021"
publish = false

[dependencies]
crossterm = "*"
rand = "0.9"
ratatui = "*"
ron = "*"
serde = { version = "1", features = ["derive"] }
tui-input = "*"
