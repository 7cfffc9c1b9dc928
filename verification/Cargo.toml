[package]
name = "zaino-e2e"
version = "0.1.0"
edition = "2021"
publish = false

[dependencies]
testcontainers = { version = "=0.24.0", default-features = false, features = ["ssl"] }
tokio = { version = "=1.54.1", features = ["macros", "rt-multi-thread", "signal", "time", "io-util"] }
