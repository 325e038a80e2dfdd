[package]
name = "mu"
version = "0.1.0"
edition = "2021"
publish = false

[dependencies]
anyhow = "1"
crossterm = "0.28"
nix = { version = "0.29", features = ["signal", "fs", "user"] }
ratatui = "0.29"
serde = { version = "1", features = ["derive"] }
serde_json = "1"
thiserror = "2"
time = { version = "0.3", features = ["local-offset", "formatting", "parsing"] }
toml = "0.8"
