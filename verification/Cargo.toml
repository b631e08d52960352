[package]
name = "rsrq"
version = "0.1.0"
edition = "2021"
publish = false

[dependencies]
regex = "1"
serde_json = "1"
redis = { version = "0.23", features = ["tokio-comp", "connection-manager"] }
tokio = { version = "1", features = ["rt-multi-thread", "macros", "process", "signal", "sync", "time"] }
clap = { version = "4", features = ["derive"] }
env_logger = "*"
log = "0.4"
hostname = "*"
chrono = "0.4"
terminal_size = "*"
