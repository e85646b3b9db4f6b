[package]
name = "weave"
version = "0.1.0"
edition = "2021"
publish = false

[dependencies]
anyhow = "1"
async-trait = "0.1"
chrono = { version = "0.4", features = ["serde"] }
rand = "0.9"
serde = { version = "1", features = ["derive"] }
serde_json = "1"
shlex = "1.3"
time = { version = "0.3", features = ["formatting"] }
tokio = { version = "1", features = ["fs", "io-util", "macros", "net", "rt", "sync", "time"] }
tracing = "0.1"
uuid = { version = "1", features = ["v4"] }
