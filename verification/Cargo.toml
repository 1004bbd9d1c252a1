[package]
name = "cli-agent"
version = "0.1.0"
edition = "2021"
publish = false

[dependencies]
anyhow = "1"
nix = { version = "0.29", features = ["hostname", "process", "user"] }
rusqlite = { version = "0.31", features = ["bundled"] }
serde = { version = "1", features = ["derive"] }
serde_json = "1"
shell-words = "1"
signal-hook = "0.3"
thiserror = "1"
uuid = { version = "1", features = ["v4"] }
