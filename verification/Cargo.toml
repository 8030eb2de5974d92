[package]
name = "perseus"
version = "0.1.0"
edition = "2021"
publish = false

[dependencies]
anyhow = "=1.0.104"
arboard = { version = "=3.7.0", default-features = false }
crossterm = "=0.28.1"
ratatui = "=0.29.0"
reqwest = { version = "=0.12.28", features = ["native-tls"] }
serde = { version = "=1.0.229", features = ["derive"] }
serde_json = "=1.0.154"
tokio = { version = "=1.54.1", features = ["rt-multi-thread", "macros", "sync"] }
toml = "=0.8.23"
tui-textarea = "=0.7.0"
unicode-width = "=0.2.0"
uuid = { version = "=1.29.0", features = ["v4"] }
