[package]
name = "place_backend"
version = "0.1.0"
edition = "2021"
publish = false

[dependencies]
bebop = "*"
futures-util = { version = "0.3", features = ["sink"] }
tokio = { version = "1", features = ["macros", "net", "rt-multi-thread", "sync", "time"] }
tokio-tungstenite = "0.21"
