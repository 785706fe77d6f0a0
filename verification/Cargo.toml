[package]
name = "error_rail"
version = "0.1.0"
edition = "2021"
publish = false

[dependencies]
smallvec = "1"
serde = { version = "1", features = ["derive"] }
tokio = { version = "1", features = ["time", "rt", "macros"] }
tracing = "0.1"
futures-core = "0.3"
pin-project-lite = "0.2"
tower = "0.5"
