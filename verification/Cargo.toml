[package]
name = "boa"
version = "0.1.0"
edition = "2021"
publish = false

[dependencies]
tar = "*"
uuid = { version = "*", features = ["v4"] }
tokio = { version = "*", features = ["full"] }
axum = { version = "*", features = ["ws"] }
bollard = "*"
futures-util = "*"
tempfile = "*"
owo-colors = "*"
