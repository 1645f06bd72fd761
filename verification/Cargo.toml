[package]
name = "always_online_node"
version = "0.1.0"
edition = "2021"
publish = false

[dependencies]
anyhow = "*"
clap = { version = "*", features = ["derive"] }
ctrlc = "*"
env_logger = "*"
log = "*"
mr_bundle = "*"
sha2 = "*"
tokio = { version = "*", features = ["rt-multi-thread", "macros", "signal", "time", "net"] }
url2 = "*"
