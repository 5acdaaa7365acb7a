[package]
name = "betterprocs"
version = "0.1.0"
edition = "2021"
publish = false

[dependencies]
nix = { version = "=0.29.0", features = ["signal", "poll", "process", "fs"] }
portable-pty = "=0.8.1"
vt100 = "=0.15.2"
serde = { version = "1", features = ["derive"] }
serde_json = "1"
serde_yaml = "0.9"
indexmap = { version = "2", features = ["serde"] }
clap = { version = "4", features = ["derive"] }
crossterm = "0.28"
ratatui = "0.29"
arboard = "3"
anyhow = "1"
