[package]
name = "syno-clean"
version = "0.1.0"
edition = "2021"
publish = false

[dependencies]
anyhow = "1"
clap = { version = "4", features = ["derive"] }
etcetera = "=0.11.0"
ratatui = "0.29"
reqwest = { version = "=0.12.28", default-features = false, features = ["rustls-tls"] }
rpassword = "7"
serde = { version = "=1.0.229", features = ["derive"] }
serde_json = { version = "=1.0.154", features = ["raw_value"] }
thiserror = "2"
tokio = { version = "1", features = ["full"] }
toml = "=0.9.12"
tracing = "0.1"
tracing-appender = "0.2"
tracing-subscriber = "0.3"
unicode-width = "=0.2.0"
