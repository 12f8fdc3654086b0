[package]
name = "zodiac_bot"
version = "0.1.0"
edition = "2021"
publish = false

[dependencies]
serenity = "0.10"
tokio = { version = "1", features = ["macros", "rt-multi-thread"] }
tokio-postgres = "0.7"
