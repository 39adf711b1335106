[package]
name = "relay"
version = "0.1.0"
edition = "2021"
publish = false

[dependencies]
lambda_http = "*"
reqwest = { version = "0.11", default-features = false, features = ["rustls-tls"] }
tokio = { version = "1", features = ["macros", "rt-multi-thread"] }
tracing = "0.1"
tracing-subscriber = "0.3"
bytes = "1"
