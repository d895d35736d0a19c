[package]
name = "hexcore"
version = "0.1.0"
edition = "2021"
publish = false

[dependencies]
crossterm = "*"
ratatui = "*"
serde = { version = "1", features = ["derive"] }
serde_json = "1"
tempfile = "3"
unicode-width = "*"
