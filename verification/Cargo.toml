[package]
name = "aim"
version = "0.1.0"
edition = "2021"
publish = false

[dependencies]
serde = { version = "1", features = ["derive"] }
serde_json = "1"
chrono = "0.4"
tokio = { version = "1", features = ["full"] }
reqwest = { version = "0.12", default-features = false, features = ["json", "stream"] }
futures-util = "0.3"
async-trait = "0.1"
clap = { version = "4", features = ["derive"] }
dotenvy = "0.15"
log = "0.4"
env_logger = "0.11"
indicatif = "0.17"
