[package]
name = "lazyssh"
version = "0.1.0"
edition = "2021"
publish = false

[dependencies]
shellexpand = "3"
keyring = { version = "3", features = ["linux-native"] }
ring = "0.17"
dirs = "*"
fuzzy-matcher = "0.3"
serde = { version = "1", features = ["derive"] }
toml = "*"
anyhow = "1"
crossterm = "*"
ratatui = "*"
tokio = { version = "1", features = ["full"] }
russh = "*"
russh-sftp = "*"
uuid = { version = "1", features = ["v4"] }
chrono = "0.4"
arboard = { version = "3", default-features = false }
tachyonfx = "*"

[dev-dependencies]
tempfile = "3"
serde_json = "1"
