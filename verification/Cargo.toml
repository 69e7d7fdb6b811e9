[package]
name = "vibe_reachout"
version = "0.1.0"
edition = "2021"
publish = false

[dependencies]
anyhow = "*"
clap = { version = "*", features = ["derive"] }
dashmap = "*"
dirs = "*"
libc = "*"
serde = { version = "*", features = ["derive"] }
serde_json = "*"
takecell = "=0.1.1"
teloxide = "=0.13.0"
thiserror = "*"
tokio = { version = "*", features = ["full"] }
tokio-util = "*"
toml = "*"
tracing = "*"
tracing-subscriber = { version = "*", features = ["env-filter"] }
uuid = { version = "*", features = ["v4", "serde"] }
