[package]
name = "rufa"
version = "0.1.0"
edition = "2021"
publish = false

[dependencies]
anyhow = "1"
chrono = { version = "0.4", features = ["clock", "std"] }
clap = { version = "4", features = ["derive"] }
clap_complete = "4"
nix = { version = "*", features = ["signal"] }
notify = "*"
once_cell = "1"
parking_lot = "0.12"
regex = "1"
serde = { version = "1", features = ["derive"] }
serde_json = "1"
terminal_size = "*"
thiserror = "*"
tokio = { version = "1", features = ["full"] }
toml = "0.8"
tracing = "0.1"
tracing-subscriber = { version = "0.3", features = ["env-filter"] }
unicode-width = "*"
uuid = { version = "1", features = ["v4"] }

[dev-dependencies]
tempfile = "3"
