[package]
name = "aionui_db"
version = "0.1.0"
edition = "2021"
publish = false

[dependencies]
serde_json = "1"
sha2 = "0.10"
serde = { version = "1", features = ["derive"] }
sqlx = { version = "0.8", default-features = false, features = ["runtime-tokio", "sqlite", "macros"] }
async-trait = "0.1"
thiserror = "2"
tokio = { version = "1", features = ["rt"] }
