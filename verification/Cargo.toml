[package]
name = "yapper"
version = "0.1.0"
edition = "2021"
publish = false

[dependencies]
regex = "1"
unicode-width = "0.2"
serialport = { version = "4", default-features = false }
crossterm = "0.28"
ratatui = "0.29"
chrono = "0.4"
dirs = "5"
toml = "0.8"
serde = { version = "1", features = ["derive"] }
clap = { version = "4", features = ["derive"] }
anyhow = "1"
arboard = { version = "3", default-features = false }
cli-clipboard = "0.4"
