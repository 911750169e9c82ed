[package]
name = "telemetry_sink"
version = "0.1.0"
edition = "2021"
publish = false

[dependencies]
hopper = "*"
serde = { version = "*", features = ["derive"] }
