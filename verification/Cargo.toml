[package]
name = "btd"
version = "0.1.0"
edition = "2021"
publish = false

[dependencies]
dioxus = "0.6"
dioxus-html = "0.6"
ollama-rs = { version = "0.3", features = ["stream"] }
serde = { version = "1", features = ["derive"] }
serde_json = "1"
tokio = { version = "1", features = ["full"] }
tokio-stream = "0.1"
