[package]
name = "pressa"
version = "0.1.0"
edition = "2021"
publish = false

[dependencies]
chrono = "=0.4.45"
ulid = "=3.0.0"
serde = { version = "=1.0.229", features = ["derive"] }
serde_json = "=1.0.154"
serde_yaml = "=0.9.34"
clap = { version = "=4.6.7", features = ["derive"] }
rusqlite = { version = "=0.32.1", features = ["bundled"] }
ratatui = "=0.29.0"
crossterm = "=0.28.1"
tracing = "=0.1.44"
tracing-subscriber = "=0.3.23"
thiserror = "=2.0.21"
indexmap = "=2.14.2"
