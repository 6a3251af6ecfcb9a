[package]
name = "open_xiaoai_server"
version = "0.1.0"
edition = "2021"
publish = false

[dependencies]
futures-util = "=0.3.34"
serde_json = "=1.0.151"
tokio = { version = "=1.53.2", features = ["rt-multi-thread", "net", "time", "sync", "macros", "io-util"] }
tokio-tungstenite = "=0.30.0"
pyo3 = "=0.29.3"
pyo3-async-runtimes = { version = "=0.29.0", features = ["tokio-runtime"] }
