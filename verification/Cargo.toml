[package]
name = "ferrisquery"
version = "0.1.0"
edition = "2021"
publish = false

[dependencies]
rcon = { version = "*", features = ["rt-tokio"] }
tokio = { version = "*", features = ["rt-multi-thread", "macros", "net", "time", "sync", "io-std", "io-util"] }
