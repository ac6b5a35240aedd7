[package]
name = "cln_feeder"
version = "0.1.0"
edition = "2021"
publish = false

[dependencies]
anyhow = "1"
chrono = "0.4"
clap = { version = "4", features = ["derive"] }
cln-rpc = "*"
env_logger = "*"
log = "0.4"
rusqlite = { version = "*", features = ["bundled"] }
tokio = { version = "1", features = ["macros", "rt-multi-thread", "time", "fs"] }
