[package]
name = "marketwatch"
version = "0.1.0"
edition = "2021"
publish = false

[dependencies]
dirs = "*"
serde = { version = "1", features = ["derive"] }
serde_json = "1"
reqwest = { version = "0.12", default-features = false, features = ["json", "rustls-tls"] }
tokio = { version = "1", features = ["time"] }
async-stream = "*"
notify-rust = "*"
tracing = "*"
tracing-subscriber = "*"
tracing-log = "*"
i18n-embed = { version = "*", features = ["desktop-requester", "fluent-system"] }
