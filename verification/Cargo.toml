[package]
name = "rns_runtime"
version = "0.1.0"
edition = "2021"
publish = false

[dependencies]
bytes = "1"
hex = "0.4"
rmpv = "1"
thiserror = "*"
tokio = { version = "1", features = ["sync", "time", "rt", "macros"] }
tracing = "0.1"
