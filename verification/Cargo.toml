[package]
name = "gitscope"
version = "0.1.0"
edition = "2021"
publish = false

[dependencies]
chrono = "=0.4.45"
git2 = { version = "=0.21.0", default-features = false }
crossterm = "=0.29.0"
ratatui = "=0.30.2"
tokio = { version = "=1.54.1", features = ["rt-multi-thread"] }
octocrab = "=0.40.0"
serde_json = "=1.0.154"
