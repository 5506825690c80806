[package]
name = "jinn_domain"
version = "0.1.0"
edition = "2021"
publish = false

[dependencies]
async-trait = "=0.1.92"
error-stack = "=0.8.0"
kameo = "=0.22.2"
ratatui = "=0.30.2"
serde = { version = "=1.0.229", features = ["derive"] }
serde_json = "=1.0.154"
tiktoken = { version = "=4.1.2", default-features = false, features = ["vocab-o200k_base"] }
tokio = { version = "=1.54.1", features = ["rt", "sync", "macros"] }
tracing = "=0.1.44"
trouper = "=0.14.0"
unicode-segmentation = "=1.13.3"
unicode-width = "=0.2.3"
uuid = { version = "=1.29.0", features = ["v4"] }
wherror = "=2.4.0"
