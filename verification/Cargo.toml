[package]
name = "tono_service"
version = "0.1.0"
edition = "2021"
publish = false

[dependencies]
anyhow = "=1.0.104"
once_cell = "=1.21.4"
serde = { version = "=1.0.229", features = ["derive"] }
serde_json = "=1.0.154"
sha2 = "0.10"
tokio = { version = "=1.54.1", features = ["fs", "sync", "rt", "time", "macros"] }
tracing = "=0.1.44"
