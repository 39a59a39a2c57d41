[package]
name = "gateway_tunnel"
version = "0.1.0"
edition = "2021"
publish = false

[dependencies]
backoff = "0.4"
boringtun = "0.5"
chrono = "0.4"
secrecy = "0.8"
tokio = { version = "1", features = ["rt-multi-thread", "sync", "time", "macros"] }
tokio-tungstenite = "0.20"
url = "2"
webrtc = "0.7"
