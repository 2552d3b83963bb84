[package]
name = "ao_core"
version = "0.1.0"
edition = "2021"
publish = false

[dependencies]
libc = "0.2"
schemars = "0.8"
serde = { version = "1", features = ["derive"] }
serde_ignored = "0.1"
serde_json = "1"
serde_yaml = "0.9"
thiserror = "1"
tokio = { version = "1", features = ["fs", "macros", "process", "rt", "sync", "time"] }
tokio-util = "0.7"
tracing = "0.1"
