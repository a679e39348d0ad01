[package]
name = "mockito"
version = "0.1.0"
edition = "2021"
publish = false

[dependencies]
regex = "=1.13.1"
serde_json = "=1.0.154"
assert-json-diff = "=2.0.2"
serde_urlencoded = "=0.7.1"
similar = "=2.7.0"
rand = "=0.8.8"
http = "=0.2.12"
hyper = { version = "=0.14.32", features = ["server", "http1", "http2", "tcp", "runtime", "stream"] }
tokio = { version = "=1.54.1", features = ["net", "rt", "sync", "time"] }
futures = "=0.3.34"
lazy_static = "=1.5.1"
log = "=0.4.35"
colored = "2"
