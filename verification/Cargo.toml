[package]
name = "omni_bot_rs"
version = "0.1.0"
edition = "2021"
publish = false

[dependencies]
rand = "0.8"
clap = { version = "4", default-features = false, features = ["std", "derive", "env", "help"] }
env_logger = { version = "0.10", default-features = false }
futures = "0.3"
lapin = "2"
mongodb = "2"
poise = "0.5"
reqwest = { version = "0.11", default-features = false, features = ["json"] }
serde = { version = "1", features = ["derive"] }
serde_json = "1"
tokio = { version = "1", features = ["macros", "rt-multi-thread", "sync", "fs"] }
tokio-executor-trait = "2"
tokio-reactor-trait = "1"
