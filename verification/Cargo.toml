[package]
name = "ollama_adapter"
version = "0.1.0"
edition = "2021"
publish = false

[dependencies]
uuid = { version = "*", features = ["v4"] }
chrono = "*"
reqwest = { version = "*", features = ["json"] }
serde = { version = "*", features = ["derive"] }
