[package]
name = "modpack_tool"
version = "0.1.0"
edition = "2021"
publish = false

[dependencies]
url = "2"
http = "0.2"
sha1 = "0.10"
chrono = "0.4"
hyper = { version = "0.14", features = ["client", "http1", "tcp"] }
hyper-tls = "0.5"
tokio = { version = "1", features = ["rt-multi-thread", "macros", "fs", "io-util"] }
serde = { version = "1", features = ["derive"] }
serde_json = "1"
