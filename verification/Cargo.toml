[package]
name = "dd_trace_rust"
version = "0.1.0"
edition = "2021"
publish = false

[dependencies]
http = "*"
tracing = "*"
tracing-subscriber = "*"
tower-service = "*"
async-trait = "*"
reqwest-middleware = "*"
reqwest = { version = "*", default-features = false }
