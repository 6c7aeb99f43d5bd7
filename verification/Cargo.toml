[package]
name = "rust_openai"
version = "0.1.0"
edition = "2021"
publish = false

[dependencies]
serde = { version = "1", features = ["derive"] }
serde_json = "1"
chrono = "0.4"
dotenvy = "0.15"
lopdf = "*"
reqwest = { version = "*", default-features = false, features = ["json"] }
sea-orm = { version = "*", default-features = false, features = ["macros"] }
