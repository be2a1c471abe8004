[package]
name = "rollcall"
version = "0.1.0"
edition = "2021"
publish = false

[dependencies]
clap = { version = "4", features = ["derive"] }
crossterm = "0.28"
glob = "0.3"
ratatui = "0.29"
rusqlite = { version = "0.32", features = ["bundled"] }
serde = { version = "1", features = ["derive"] }
serde_json = "1"
shlex = "1.3"
tungstenite = { version = "0.24", default-features = false, features = ["handshake"] }
