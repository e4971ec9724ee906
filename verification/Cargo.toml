[package]
name = "hub_tui"
version = "0.1.0"
edition = "2021"
publish = false

[dependencies]
unicode-width = "*"
serde = { version = "1", features = ["derive"] }
serde_json = "1"
crossterm = "*"
ratatui = "*"
parking_lot = "*"
rusqlite = { version = "*", features = ["bundled"] }
