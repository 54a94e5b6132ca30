[package]
name = "voice_migrator"
version = "0.1.0"
edition = "2021"
publish = false

[dependencies]
config = "0.11"
mysql = "20"
serenity = "0.10"
tokio = { version = "1", features = ["macros", "rt-multi-thread"] }
