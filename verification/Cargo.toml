[package]
name = "uhttp"
version = "0.1.0"
edition = "2021"
publish = false

[dependencies]
path-tree = "=0.8.3"
percent-encoding = "=2.3.2"
xxhash-rust = { version = "=0.8.19", features = ["xxh3"] }
mime_guess = "=2.0.5"
sha1 = "=0.11.0"
base64 = "=0.23.1"
flate2 = "=1.1.10"
brotli = "=9.1.1"
httparse = "=1.10.1"
http = "=1.5.0"
tokio = { version = "=1.54.1", features = ["full"] }
hyper = { version = "=1.12.0", features = ["full"] }
hyper-util = { version = "=0.1.21", features = ["full"] }
http-body-util = "=0.1.5"
tokio-util = { version = "=0.7.20", features = ["io"] }
futures = "=0.3.34"
anyhow = "=1.0.104"
include_dir = "=0.7.4"
async-compression = { version = "=0.4.52", features = ["tokio", "gzip", "brotli", "zstd"] }
tokio-tungstenite = "=0.30.0"
tokio-rustls = "=0.26.6"
rustls-pemfile = "=2.2.0"
serde = "=1.0.229"
serde_json = "=1.0.154"
parking_lot = "=0.13.0"
