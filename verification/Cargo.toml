[package]
name = "datadog_statsd"
version = "0.1.0"
edition = "2021"
publish = false

[dependencies]
futures = "0.3"
rand = "0.8"
serde = { version = "1", features = ["derive"] }
thiserror = "1"
