[package]
name = "discovery_tracker"
version = "0.1.0"
edition = "2021"
publish = false

[dependencies]
anyhow = "*"
axum = "*"
chrono = { version = "*", default-features = false, features = ["clock"] }
reqwest = { version = "*", default-features = false, features = ["json"] }
serde = { version = "*", features = ["derive"] }
serde_json = "*"
serde_yaml = "*"
tokio = { version = "*", features = ["rt-multi-thread", "macros", "fs", "io-util", "signal", "time", "net"] }
tracing = "*"
tracing-appender = "*"
tracing-subscriber = { version = "*", features = ["json"] }
