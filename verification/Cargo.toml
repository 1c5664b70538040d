[package]
name = "iaudit"
version = "0.1.0"
edition = "2021"
publish = false

[dependencies]
murmurhash64 = "*"
serde = { version = "*", features = ["derive"] }
serde_json = "*"
tokio = { version = "*", features = ["macros", "rt-multi-thread"] }
reqwest = { version = "*", default-features = false, features = ["json"] }
qdrant-client = "*"
