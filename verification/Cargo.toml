[package]
name = "chat_core"
version = "0.1.0"
edition = "2021"
publish = false

[dependencies]
bytes = "1"
tokio = { version = "1", features = ["full"] }
tokio-util = { version = "0.7", features = ["codec"] }
tokio-stream = "0.1"
futures = "0.3"
tracing = "0.1"
tracing-subscriber = { version = "0.3", features = ["fmt", "time"] }
tracing-appender = "0.2"
time = { version = "0.3", features = ["macros"] }
serde = { version = "1", features = ["derive"] }
toml = "0.8"
rsa = "0.9"
rand = "0.8"
colored = "2"
async-trait = "0.1"
