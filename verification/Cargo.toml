[package]
name = "cdumay_result"
version = "1.0.0"
edition = "2021"
publish = false

[dependencies]
cdumay_core = "*"
cdumay_error = "1.0"
serde = { version = "1", features = ["derive"] }
serde_json = "1"
serde-value = "*"
uuid = { version = "1", features = ["v4", "serde"] }

[dev-dependencies]
cdumay_error_standard = "1.0"
