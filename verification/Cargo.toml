[package]
name = "waygate_upstream"
version = "0.1.0"
edition = "2021"
publish = false

[dependencies]
arc-swap = "=1.9.3"
async-trait = "=0.1.92"
futures = "=0.3.34"
rand = "=0.10.3"
rmcp = { version = "=3.8.0", features = ["client"] }
serde = { version = "=1.0.229", features = ["derive"] }
serde_json = "=1.0.154"
time = { version = "=0.3.55", features = ["serde-well-known"] }
tokio = { version = "=1.54.1", features = ["macros", "rt-multi-thread", "sync", "time"] }
tokio-util = "=0.7.20"
url = "=2.5.8"
uuid = { version = "=1.29.0", features = ["v4"] }
