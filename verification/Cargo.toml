[package]
name = "remo_client_rs"
version = "0.1.0"
edition = "2021"
publish = false

[dependencies]
percent-encoding = "2"
serde = { version = "1", features = ["derive"] }
serde_json = "1"
reqwest = "0.11"
tokio = { version = "1", features = ["macros", "rt-multi-thread"] }
dotenv = "0.15"
