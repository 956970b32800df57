[package]
name = "apalis-monitor"
version = "0.1.0"
edition = "2021"
publish = false

[dependencies]
futures = "=0.3.34"

[dev-dependencies]
tokio = { version = "1", features = ["rt", "time"] }
