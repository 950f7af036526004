[package]
name = "translator_core"
version = "0.1.0"
edition = "2021"
publish = false

[dependencies]
dashmap = "5"
chrono = "0.4"
tokio = { version = "1", features = ["sync", "rt", "rt-multi-thread", "macros", "time"] }
serde = { version = "1", features = ["derive"] }
serde_json = "1"
log = "0.4"
env_logger = "0.10"
anyhow = "1"
thiserror = "1"
whatlang = "0.16"
unicode-segmentation = "1"
