[package]
name = "hook-notify"
version = "0.1.0"
edition = "2021"
publish = false

[dependencies]
serde = { version = "1", features = ["derive"] }
serde_json = "1"
serde_yaml = "0.9"
thiserror = "2"
anyhow = "1"
tracing = "0.1"
tracing-subscriber = { version = "0.3", features = ["fmt", "env-filter"] }
clap = { version = "4", features = ["derive"] }
ureq = "2"
rodio = { version = "0.19", default-features = false, features = ["mp3", "wav", "vorbis"] }
notify-rust = "4"
