[package]
name = "chirp"
version = "0.1.0"
edition = "2021"
publish = false

[dependencies]
shlex = "=2.0.1"
unescape = "=0.1.0"
serde_json = "=1.0.151"
serde = { version = "=1.0.229", features = ["derive"] }
apalis-cron = "=0.7.4"
chrono = "*"
