[package]
name = "torrent_search"
version = "0.1.0"
edition = "2021"
publish = false

[dependencies]
serde_json = "1"
serde = { version = "1", features = ["derive"] }
hyper = { version = "0.14", features = ["client", "http1", "http2", "tcp"] }
hyper-tls = "0.5"
async-trait = "0.1"
log = "0.4"
tokio = { version = "1", features = ["time", "rt", "macros"] }
