[package]
name = "susshi"
version = "0.1.0"
edition = "2021"
publish = false

[dependencies]
shellexpand = "3"
fuzzy-matcher = "0.3"
catppuccin = "2"
serde = { version = "1", features = ["derive"] }
serde_yaml = "0.9"
serde_json = "1"
clap = { version = "4", features = ["derive"] }
ratatui = "0.29"
crossterm = "0.28"
arboard = { version = "3", default-features = false }
ssh2 = "0.9"
nix = { version = "0.29", features = ["term", "process", "signal"] }
libc = "0.2"
anyhow = "1"
thiserror = "2"
