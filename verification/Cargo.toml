[package]
name = "webserver"
version = "0.1.0"
edition = "2021"
publish = false

[dependencies]
tokio = { version = "1", features = ["rt-multi-thread", "net", "sync", "macros", "io-util"] }
async-std = "1"
termion = "*"
