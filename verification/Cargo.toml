[package]
name = "autopilot"
version = "0.1.0"
edition = "2021"
publish = false

[dependencies]
chrono = { version = "=0.4.45", features = ["serde"] }
ethcontract = { version = "=0.25.8", default-features = false }
hex = "=0.4.3"
itertools = "=0.15.0"
primitive-types = { version = "=0.14.0", features = ["serde"] }
reqwest = { version = "=0.13.5", default-features = false }
serde = { version = "=1.0.229", features = ["derive"] }
serde_with = "=3.24.0"
tokio = { version = "=1.54.1", features = ["rt", "sync", "time"] }
