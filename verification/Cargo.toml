[package]
name = "picker"
version = "0.1.0"
edition = "2021"
publish = false

[dependencies]
nucleo = "*"
content_inspector = "*"
tokio = { version = "*", default-features = false, features = ["sync", "rt", "time"] }
anyhow = "*"
futures-util = "*"
