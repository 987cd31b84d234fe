[package]
name = "docker_watchdog"
version = "0.1.0"
edition = "2021"
publish = false

[dependencies]
bollard = "*"
tokio = { version = "1", features = ["macros", "rt-multi-thread", "signal", "time"] }
futures-util = "*"
tracing = "0.1"
tracing-subscriber = { version = "0.3", features = ["env-filter"] }
