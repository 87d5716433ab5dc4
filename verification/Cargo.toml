[package]
name = "moq-net"
version = "0.1.0"
edition = "2021"
publish = false

[dependencies]
flate2 = "=1.1.10"
futures = "=0.3.34"
kio = "=0.6.3"
rand = "=0.10.3"
serde = { version = "=1.0.229", features = ["derive"] }
thiserror = "=2.0.21"
tokio = { version = "=1.54.1", features = ["macros", "rt", "sync", "time"] }
tracing = "=0.1.44"
web-async = "=0.1.5"
web-transport-trait = "=0.5.2"
