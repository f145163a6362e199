[package]
name = "chess_pipeline"
version = "0.1.0"
edition = "2021"
publish = false

[dependencies]
zstd = "*"
url = "*"
base64 = "0.13"
rand = "0.8"
serde = { version = "*", features = ["derive"] }
serde_json = "*"
toml = "*"
tokio = { version = "*", features = ["full"] }
rdkafka = "*"
reqwest = { version = "*", default-features = false, features = ["rustls-tls", "stream", "json"] }
rust-s3 = "*"
aws-region = "*"
tokio-postgres = "*"
futures-util = "*"
tracing = "*"
tracing-subscriber = "*"
