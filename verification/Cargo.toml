[package]
name = "dashboard_core"
version = "0.1.0"
edition = "2021"
publish = false

[dependencies]
anyhow = "=1.0.104"
futures-util = "=0.3.34"
http-body-util = "=0.1.5"
humantime = "=2.4.0"
hyper = { version = "=1.12.0", features = ["http1", "server"] }
log = "=0.4.34"
maud = "=0.27.0"
pretty-bytes-typed = "=0.2.0"
pty-process = { version = "=0.5.4", features = ["async"] }
serde = { version = "=1.0.229", features = ["derive"] }
serde_urlencoded = "=0.7.1"
tokio = { version = "=1.54.1", features = ["fs", "io-util", "macros", "process", "rt", "sync"] }
tokio-stream = "=0.1.19"
