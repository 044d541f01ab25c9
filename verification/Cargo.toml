[package]
name = "merco"
version = "0.1.0"
edition = "2021"
publish = false

[dependencies]
bigdecimal = { version = "0.4", features = ["serde"] }
uuid = { version = "1", features = ["v4", "serde"] }
chrono = { version = "0.4", features = ["serde"] }
serde = { version = "1", features = ["derive"] }
serde_json = "1"
tokio = { version = "1", features = ["sync", "rt", "rt-multi-thread", "macros", "process"] }
axum = "*"
futures = "0.3"
async-stream = "0.3"
tracing = "0.1"
toml_edit = "*"
cargo_metadata = "*"
