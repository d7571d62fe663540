[package]
name = "load_balance"
version = "0.1.0"
edition = "2021"
publish = false

[dependencies]
tonic = "=0.8.3"
http = "=0.2.12"
opentelemetry = { version = "0.20", features = ["rt-async-std"] }
opentelemetry-otlp = "0.13"
tracing = "=0.1.44"
tracing-opentelemetry = "0.21"
tracing-subscriber = { version = "=0.3.23", features = ["env-filter", "json"] }
tokio = { version = "=1.54.1", features = ["rt-multi-thread", "macros", "sync", "time"] }
tokio-stream = "=0.1.19"
futures = "=0.3.34"
h2 = "=0.3.27"
