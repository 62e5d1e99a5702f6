[package]
name = "hookgate"
version = "0.1.0"
edition = "2021"
publish = false

[dependencies]
sha2 = "0.10"
hex = "0.4"
axum = { version = "0.6", features = ["headers"] }
clap = { version = "4", features = ["derive"] }
futures-util = "0.3"
serde = { version = "1", features = ["derive"] }
serde_json = "1"
tokio = { version = "1", features = ["macros", "rt-multi-thread", "process", "signal"] }
tower = "0.4"
tower_governor = "0.0"
tracing = "0.1"
tracing-subscriber = "0.3"
