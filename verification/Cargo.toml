[package]
name = "arrow-coder"
version = "0.1.0"
edition = "2021"
publish = false

[dependencies]
serde = { version = "1", features = ["derive"] }
serde_json = "1"
toml = "0.8"
uuid = { version = "1", features = ["v4"] }
reqwest = { version = "0.12", default-features = false }
thiserror = "1"
anyhow = "1"
crossterm = "0.28"
ratatui = "0.29"
tokio = { version = "1", features = ["full"] }
chrono = "0.4"
dirs = "5"
directories = "5"
clap = { version = "4", features = ["derive", "env"] }
unicode-width = "0.2"
