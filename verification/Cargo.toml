[package]
name = "sensorpoll"
version = "0.1.0"
edition = "2021"
publish = false

[dependencies]
anyhow = "*"
rumqttc = { version = "*", features = ["url"] }
tokio = { version = "*", features = ["macros", "rt-multi-thread", "time"] }
tracing = "*"
tracing-subscriber = "*"
