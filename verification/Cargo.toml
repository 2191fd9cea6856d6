[package]
name = "timing_system"
version = "0.1.0"
edition = "2021"
publish = false

[dependencies]
nanoid = "*"
jsonschema = { version = "*", default-features = false }
serde_json = "*"
serde = { version = "*", features = ["derive"] }
tokio = { version = "*", features = ["sync", "rt-multi-thread", "macros", "io-std", "io-util", "time"] }
