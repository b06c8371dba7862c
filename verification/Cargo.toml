[package]
name = "linkerd_proxy_core"
version = "0.1.0"
edition = "2021"
publish = false

[dependencies]
bytes = "=1.12.1"
futures = "=0.3.34"
http = "=0.2.12"
http-body = "=0.4.6"
pin-project = "=1.1.13"
prometheus-client = "=0.22.3"
regex = "=1.13.1"
thiserror = "=1.0.69"
tokio = { version = "=1.54.1", features = ["io-util", "macros", "net", "rt", "rt-multi-thread", "signal", "sync", "time"] }
tower = "=0.4.13"
tracing = "=0.1.44"
