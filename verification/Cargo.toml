[package]
name = "lightbulb"
version = "0.1.0"
edition = "2021"
publish = false

[dependencies]
chrono = "*"
rmcp = { version = "*", features = ["server", "transport-io"] }
tokio = { version = "*", features = ["rt-multi-thread", "macros", "io-std", "io-util"] }
