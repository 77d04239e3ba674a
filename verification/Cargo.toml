[package]
name = "untitled-cache-server"
version = "0.1.0"
edition = "2021"
publish = false

[dependencies]
anyhow = "1"
bytes = "1"
console-subscriber = "0.1"
dashmap = "5"
docopt = "1"
http-body-util = "=0.1.0-rc.2"
hyper = { version = "=1.0.0-rc.3", features = ["http1", "server"] }
reqwest = { version = "0.11", default-features = false }
rustls = "0.21"
rustls-pemfile = "1"
serde = { version = "1", features = ["derive"] }
tokio = { version = "1", features = ["fs", "io-util", "macros", "net", "rt-multi-thread", "sync", "time"] }
tokio-rustls = "0.24"
tracing = "0.1"
