[package]
name = "tftp"
version = "0.2.0"
edition = "2021"
publish = false

[dependencies]
bytes = "1"
log = "0.4"
tokio = { version = "1", default-features = false, features = ["fs", "io-util", "net", "rt", "sync", "time"] }
