[package]
name = "chatter"
version = "0.1.0"
edition = "2021"
publish = false

[dependencies]
argon2 = "=0.5.3"
rand = "=0.8.8"
chrono = "=0.4.45"
tokio = { version = "=1.54.1", features = ["full"] }
serde = { version = "=1.0.229", features = ["derive"] }
serde_json = "=1.0.154"
tokio-tungstenite = "=0.26.2"
futures-util = "=0.3.34"
clap = { version = "=4.6.7", features = ["derive"] }
flexi_logger = "=0.22.6"
log = "=0.4.35"
cursive = "=0.21.1"
cursive-flexi-logger-view = "=0.6.0"
