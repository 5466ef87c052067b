[package]
name = "clockpipe"
version = "0.1.0"
edition = "2021"
publish = false

[dependencies]
base64 = "*"
chrono = { version = "*", default-features = false, features = ["std", "clock"] }
clap = { version = "*", features = ["derive"] }
env_logger = "*"
futures = "*"
log = "*"
serde = { version = "*", features = ["derive"] }
serde_json = "*"
tokio = { version = "*", features = ["rt-multi-thread", "macros", "time", "net", "io-util"] }
tokio-postgres = "*"
