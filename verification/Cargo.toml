[package]
name = "token_manager"
version = "0.1.0"
edition = "2021"
publish = false

[dependencies]
chrono = { version = "0.4", default-features = false, features = ["std", "clock"] }
dashmap = "6"
serde_json = "1"
tokio = { version = "1", default-features = false, features = ["sync", "rt", "time"] }
tracing = { version = "0.1", default-features = false, features = ["std"] }
