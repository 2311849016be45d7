[package]
name = "crabyknife"
version = "0.1.0"
edition = "2021"
publish = false

[dependencies]
quick-xml = "=0.42.0"
socket2 = { version = "=0.6.5", features = ["all"] }
uuid = { version = "=1.27.0", features = ["v4"] }
