[package]
name = "magician_bot"
version = "0.1.0"
edition = "2021"
publish = false

[dependencies]
chrono = "*"
serenity = "*"
sqlx = { version = "*", default-features = false, features = ["sqlite", "runtime-tokio"] }
tokio = { version = "*", features = ["macros", "rt-multi-thread"] }
