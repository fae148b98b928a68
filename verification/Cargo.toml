[package]
name = "cloud_trace_propagator"
version = "0.1.0"
edition = "2021"
publish = false

[dependencies]
lazy_static = "1.4"
opentelemetry = { version = "0.12", default-features = false, features = ["trace"] }
