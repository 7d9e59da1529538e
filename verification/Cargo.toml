[package]
name = "logproxy"
version = "0.1.0"
edition = "2021"
publish = false

[dependencies]
hyper = { version = "0.14", features = ["full"] }
hyper-reverse-proxy = "0.5"
serde_json = "1"
tokio = { version = "1", features = ["full"] }
tracing = "0.1"
tracing-log = "*"
tracing-subscriber = { version = "0.3", features = ["env-filter", "json"] }
url = "2"
uuid = { version = "1", features = ["v4"] }
