[package]
name = "ollama_sdk"
version = "0.1.0"
edition = "2021"
publish = false

[dependencies]
serde_json = "*"
serde = { version = "*", features = ["derive"] }
bytes = "*"
futures = "*"
async-trait = "*"
thiserror = "*"
tokio-util = "*"
tokio = { version = "*", features = ["time", "rt", "macros"] }
reqwest = { version = "*", default-features = false, features = ["json", "stream"] }
