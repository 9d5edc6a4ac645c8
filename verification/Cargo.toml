[package]
name = "ytdlpbot"
version = "0.1.0"
edition = "2021"
publish = false

[dependencies]
lru = { version = "=0.18.5", default-features = false }
url = "=2.5.8"
anyhow = "*"
log = "*"
pretty_env_logger = "*"
reqwest = { version = "*", default-features = false, features = ["json", "multipart", "query", "stream"] }
serde = { version = "*", features = ["derive"] }
serde_json = "*"
tokio = { version = "*", features = ["full"] }
tokio-util = { version = "*", features = ["codec"] }
