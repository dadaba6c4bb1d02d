[package]
name = "druid"
version = "0.1.0"
edition = "2021"
publish = false

[dependencies]
x11rb = { version = "=0.8.1", features = ["allow-unsafe-code"] }
tracing = "=0.1.44"
