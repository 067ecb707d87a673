[package]
name = "yaw"
version = "0.1.0"
edition = "2021"
publish = false

[dependencies]
base64 = "0.21"
tokio = { version = "1", features = ["rt-multi-thread", "macros", "net", "io-util", "time", "sync", "signal"] }
url-builder = "0.1"
web_server = "*"
