[package]
name = "inference_server"
version = "0.1.0"
edition = "2021"
publish = false

[dependencies]
anyhow = "1"
async-trait = "0.1"
axum = "*"
axum-prometheus = "*"
candle-core = "*"
candle-nn = "*"
candle-transformers = "*"
chrono = { version = "0.4", default-features = false, features = ["clock"] }
clap = { version = "4", features = ["derive", "env"] }
flume = "*"
futures = "0.3"
hf-hub = { version = "*", default-features = false, features = ["tokio", "rustls-tls"] }
metrics = "*"
serde = { version = "1", features = ["derive"] }
serde_json = "1"
tokenizers = "*"
tokio = { version = "1", features = ["full"] }
tower-http = { version = "*", features = ["trace"] }
tracing = "0.1"
tracing-subscriber = { version = "0.3", features = ["env-filter"] }
uuid = { version = "1", features = ["v4"] }
