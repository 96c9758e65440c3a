[package]
name = "touch-fish"
version = "0.1.0"
edition = "2021"
publish = false

[dependencies]
anyhow = "=1.0.104"
base64 = "=0.22.1"
crossterm = { version = "=0.28.1", features = ["event-stream"] }
dirs = "=5.0.1"
encoding_rs = "=0.8.44"
futures = "=0.3.34"
mobi = "=0.8.0"
pdf-extract = "=0.7.12"
quick-xml = "=0.37.5"
ratatui = "=0.29.0"
reqwest = { version = "=0.12.28", default-features = false, features = ["rustls-tls", "gzip"] }
rquickjs = "=0.9.0"
scraper = { version = "=0.20.0", features = ["deterministic"] }
serde = { version = "=1.0.229", features = ["derive"] }
serde_json = "=1.0.154"
tokio = { version = "=1.54.1", features = ["rt", "rt-multi-thread", "macros", "sync", "time"] }
tokio-tungstenite = "=0.24.0"
toml = "=0.8.23"
urlencoding = "=2.1.3"
zip = "=2.6.1"
