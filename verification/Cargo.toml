[package]
name = "sshmux"
version = "0.1.0"
edition = "2021"
publish = false

[dependencies]
anyhow = "1"
crossterm = "0.29"
dirs = "6"
log = "0.4"
portable-pty = "0.9"
ratatui = "0.30"
serde = { version = "1", features = ["derive"] }
simplelog = "0.12"
time = { version = "0.3", features = ["macros", "formatting"] }
toml = "0.9"
vt100 = "0.16"
