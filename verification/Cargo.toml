[package]
name = "game_relay"
version = "0.1.0"
edition = "2021"
publish = false

[dependencies]
actix-cors = "0.7"
actix-http = { version = "3", default-features = false, features = ["ws"] }
actix-web = { version = "4", default-features = false, features = ["macros"] }
arc-swap = "1"
dotenvy = "0.15"
env_logger = "0.11"
futures-util = { version = "0.3", features = ["sink"] }
log = "0.4"
pin-project-lite = "0.2"
serde = { version = "1", features = ["derive"] }
serde_json = "1"
tokio = { version = "1", features = ["full"] }
tokio-stream = "0.1"
tokio-util = { version = "0.7", features = ["codec", "io"] }
validator = { version = "0.18", features = ["derive"] }
