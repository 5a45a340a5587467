[package]
name = "hoshi"
version = "0.1.0"
edition = "2021"
publish = false

[dependencies]
tokio = { version = "1", features = ["rt", "rt-multi-thread", "fs", "process", "io-util", "macros", "time"] }
tempfile = "3"
reqwest = { version = "0.12", default-features = false }
