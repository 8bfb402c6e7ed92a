[package]
name = "miniorg"
version = "0.1.0"
edition = "2021"
publish = false

[dependencies]
keyring = { version = "=3.6.3", default-features = false }
url = "=2.5.8"
chrono = "=0.4.45"
tokio = { version = "=1.53.2", features = ["rt-multi-thread", "net", "io-util", "time", "sync", "macros"] }
reqwest = { version = "=0.13.5", default-features = false }
