[package]
name = "bulletty"
version = "0.1.0"
edition = "2021"
publish = false

[dependencies]
chrono = "*"
color-eyre = "*"
crossterm = "*"
etcetera = "*"
ratatui = "*"
serde = { version = "*", features = ["derive"] }
toml = "*"
tracing = "*"
