[package]
name = "screenshare"
version = "0.1.0"
edition = "2021"
publish = false

[dependencies]
base64 = "0.22"
image = { version = "0.25", default-features = false, features = ["jpeg"] }
serde = { version = "1", features = ["derive"] }
serde_json = "1"
anyhow = "1"
hostname = "0.4"
local-ip-address = "0.6"
crossterm = "0.28"
ratatui = "0.29"
portable-pty = "*"
