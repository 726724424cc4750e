[package]
name = "solarxy_cli"
version = "0.1.0"
edition = "2021"
publish = false

[dependencies]
toml = "0.8"
ratatui = { version = "0.29", features = ["unstable-rendered-line-info"] }
crossterm = "0.28"
clap = { version = "4", features = ["derive"] }
