[package]
name = "smoltalk"
version = "0.1.0"
edition = "2021"
publish = false

[dependencies]
anyhow = "1"
arboard = "3"
axum = "0.7"
clap = { version = "4", features = ["derive"] }
cpal = "0.15"
dirs = "5"
futures-util = "0.3"
hound = "3"
regex = "1"
serde = { version = "1", features = ["derive"] }
serde_json = "1"
tempfile = "3"
thiserror = "1"
tokio = { version = "1", features = ["full"] }
toml = "0.8"
tower = "0.4"
tracing = "0.1"
tracing-subscriber = { version = "0.3", features = ["env-filter"] }
which = "6"
whisper-rs = "*"
