[package]
name = "shuffle_exchange"
version = "0.1.0"
edition = "2021"
publish = false

[dependencies]
itertools = "*"
futures = "0.3"
tokio = { version = "1", features = ["rt"] }
async-trait = "0.1"
tracing = "0.1"
