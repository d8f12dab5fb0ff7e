[package]
name = "msg_socket"
version = "0.1.0"
edition = "2021"
publish = false

[dependencies]
tokio = { version = "1", features = ["sync", "rt", "rt-multi-thread", "net", "time", "io-util", "macros"] }
bytes = "1"
