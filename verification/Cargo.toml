[package]
name = "tarantula"
version = "0.1.0"
edition = "2021"
publish = false

[dependencies]
hyper = { version = "0.14", features = ["client", "http1", "http2", "tcp", "server"] }
hyper-tls = "0.5"
tokio = { version = "1", features = ["full"] }
chrono = "0.4"
uuid = { version = "1", features = ["v4"] }
urlencoding = "2"
scraper = "*"
robotstxt-with-cache = "*"
num_cpus = "1"
rand = "0.8"
serde = { version = "1", features = ["derive"] }
rocket = { version = "0.5", features = ["json"] }
