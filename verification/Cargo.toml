[package]
name = "ai_reader"
version = "0.1.0"
edition = "2021"
publish = false

[dependencies]
encoding_rs = "0.8"
url = "2"
data-encoding = "2"
serde_json = "1"
serde = { version = "1", features = ["derive"] }
thiserror = "1"
anyhow = "1"
once_cell = "1"
tokio = { version = "1", default-features = false, features = ["sync", "time", "rt"] }
reqwest = { version = "0.12", default-features = false }
