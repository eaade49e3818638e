[package]
name = "dsh_sdk"
version = "0.1.0"
edition = "2021"
publish = false

[dependencies]
prost = "*"
log = "*"
env_logger = "*"
tokio = { version = "1", features = ["macros", "rt-multi-thread", "time"] }
rdkafka = "*"
