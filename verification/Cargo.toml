[package]
name = "ppaaeedb"
version = "0.1.0"
edition = "2021"

[dependencies]
chrono = "0.4"
dotenv = "0.15"
env_logger = "0.10"
log = "0.4"
rand = "=0.8.8"
serenity = "0.12"
sysinfo = "0.29"
tokio = { version = "1", features = ["macros", "rt-multi-thread"] }
