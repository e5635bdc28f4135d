[package]
name = "walkie"
version = "0.1.0"
edition = "2021"
publish = false

[dependencies]
anyhow = "1"
bytes = "1"
cpal = "0.15"
crossterm = "0.28"
dirs = "6"
iroh-base = { version = "0.35", default-features = false, features = ["key"] }
opus = "0.3"
rand = "0.8"
ratatui = "0.29"
tokio = { version = "1", features = ["full"] }
tracing = "0.1"
tracing-subscriber = { version = "0.3", features = ["env-filter"] }
