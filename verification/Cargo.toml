[package]
name = "discord_bot"
version = "0.1.0"
edition = "2021"
publish = false

[dependencies]
rand = "0.8"
scan_fmt = "0.2"
serde = { version = "1", features = ["derive"] }
serenity = { version = "0.11", features = ["collector"] }
tokio = { version = "1", features = ["macros", "rt-multi-thread", "time"] }
rusqlite = "0.28"
