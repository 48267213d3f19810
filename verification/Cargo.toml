[package]
name = "polodb_daemon"
version = "0.1.0"
edition = "2021"
publish = false

[dependencies]
polodb_core = "=4.4.2"
async-channel = "=2.5.0"
uuid = { version = "=1.27.0", features = ["v4"] }
