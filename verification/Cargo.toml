[package]
name = "valor"
version = "0.1.0"
edition = "2021"
publish = false

[dependencies]
path-tree = "=0.8.3"
http-types = "=2.12.0"
serde = { version = "=1.0.229", features = ["derive"] }
serde_json = "=1.0.154"
libloading = "=0.9.0"
async-trait = "=0.1.92"
log = "=0.4.34"
kv-log-macro = "=1.0.7"
clap = { version = "=4.6.7", features = ["derive"] }
env_logger = "=0.11.11"
embassy-executor = { version = "=0.9.1", features = ["arch-std", "executor-thread"] }
embassy-time = { version = "=0.5.1", features = ["std"] }
