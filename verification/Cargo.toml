[package]
name = "sshchat"
version = "0.1.0"
edition = "2021"
publish = false

[dependencies]
async-trait = "0.1"
dotenv = "0.15"
env_logger = "0.10"
lazy_static = "1.4"
log = "0.4"
russh = "0.45"
russh-keys = "0.45"
serde = { version = "1", features = ["derive"] }
tokio = { version = "1", features = ["rt-multi-thread", "macros", "net", "time", "sync", "io-util"] }
unkey = "*"
