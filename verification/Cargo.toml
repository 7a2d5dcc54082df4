[package]
name = "celily"
version = "0.1.0"
edition = "2021"
publish = false

[dependencies]
uuid = { version = "1", features = ["v4"] }
humantime = "2"
serde = { version = "1", features = ["derive"] }
serde_json = "1"
toml = "0.8"
clap = { version = "4", features = ["derive"] }
clap_complete = "4"
tracing = "0.1"
tracing-subscriber = { version = "0.3", features = ["env-filter"] }
anyhow = "1"
thiserror = "2"
nix = { version = "0.29", features = ["user", "signal"] }
tokio = { version = "1", features = ["process", "rt-multi-thread", "macros", "time"] }
async-trait = "0.1"
