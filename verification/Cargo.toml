[package]
name = "tcp_services"
version = "0.1.0"
edition = "2021"
publish = false

[dependencies]
primes = "*"
serde = { version = "1", features = ["derive"] }
serde_json = "1"
tokio = { version = "1", features = ["io-util", "macros", "net", "rt-multi-thread", "sync"] }
tracing = "0.1"
tracing-subscriber = "0.3"
console-subscriber = "*"
