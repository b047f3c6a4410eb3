[package]
name = "roc_front"
version = "0.1.0"
edition = "2021"
publish = false

[dependencies]
bumpalo = { version = "3", features = ["collections"] }
tokio = { version = "0.2", features = ["blocking", "rt-core", "sync"] }
