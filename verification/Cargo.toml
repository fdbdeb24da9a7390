[package]
name = "lightctl"
version = "0.1.0"
edition = "2021"
publish = false

[dependencies]
socket2 = "*"
tokio = { version = "*", features = ["rt-multi-thread", "macros", "net", "time", "sync"] }
axum = "*"
tower = "*"
tower-http = { version = "*", features = ["cors", "fs"] }
serde = { version = "*", features = ["derive"] }
log = "*"
env_logger = "*"
ctrlc = "*"
native-tls = "*"
network-interface = "*"
