[package]
name = "stt_stream"
version = "0.1.0"
edition = "2021"
publish = false

[dependencies]
sentencepiece = "=0.14.0"
anyhow = "*"
clap = { version = "*", features = ["derive"] }
serde = { version = "*", features = ["derive"] }
serde_json = "*"
axum = "*"
tokio = { version = "*", features = ["rt-multi-thread", "macros", "net", "time"] }
tokio-tungstenite = "*"
tower-http = { version = "*", features = ["cors"] }
tracing = "*"
tracing-subscriber = { version = "*", features = ["env-filter"] }
futures-util = "*"
candle-core = "=0.9.2"
candle-nn = "=0.9.2"
candle-transformers = "=0.9.2"
moshi = "=0.6.4"
