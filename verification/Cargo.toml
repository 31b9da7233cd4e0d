[package]
name = "discord_fend"
version = "0.1.0"
edition = "2021"
publish = false

[dependencies]
serenity = "0.12"
tokio = { version = "1", features = ["full"] }
circular-buffer = "*"
fend-core = "1"
rand = "0.9"
time = { version = "0.3", features = ["macros", "formatting"] }
dotenv = "0.15"
documented = "*"
