[package]
name = "rocket"
version = "0.1.0"
edition = "2021"
publish = false

[dependencies]
either = "1"
figment = { version = "0.10", features = ["env", "toml"] }
futures = "0.3"
tokio = { version = "1", features = ["macros", "net", "rt", "rt-multi-thread", "signal", "sync", "time"] }
tracing = "0.1"
