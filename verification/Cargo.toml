[package]
name = "my_http_server"
version = "0.1.0"
edition = "2021"
publish = false

[dependencies]
async-trait = "*"
hyper = { version = "0.14", features = ["server", "http1", "tcp"] }
serde = "1"
serde_json = "1"
tokio = { version = "1", features = ["rt", "net", "time", "macros"] }
