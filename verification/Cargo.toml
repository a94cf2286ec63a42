[package]
name = "chat_core"
version = "0.1.0"
edition = "2021"
publish = false

[dependencies]
base64 = "0.22"
rand = "0.9"
tokio = { version = "1", default-features = false, features = ["rt-multi-thread", "macros", "sync", "time", "io-std", "io-util"] }
reqwest = { version = "0.12", default-features = false }
