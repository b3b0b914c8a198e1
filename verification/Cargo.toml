[package]
name = "feather"
version = "0.1.0"
edition = "2021"
publish = false

[dependencies]
bincode = "=1.3.3"
color-eyre = "=0.6.5"
crossterm = "=0.28.1"
dirs = "=7.0.0"
log = "=0.4.34"
rascii_art = "=0.4.5"
ratatui = "=0.29.0"
serde = { version = "=1.0.229", features = ["derive"] }
serde_json = "=1.0.154"
simplelog = "=0.12.2"
sled = { version = "=0.34.7", features = ["compression"] }
sys-info = "=0.9.1"
thiserror = "=1.0.69"
tokio = { version = "=1.54.1", features = ["rt-multi-thread", "macros", "sync", "time"] }
toml = "=0.8.23"
tui-textarea = "=0.7.0"
