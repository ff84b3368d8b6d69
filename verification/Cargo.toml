[package]
name = "script"
version = "0.5.0"
edition = "2021"
publish = false

[dependencies]
serde_json = "1"
uuid = { version = "1", features = ["v4"] }
chrono = "0.4"
dirs = "5"
num_cpus = "1"
rand = "0.8"
colored = "2"
tokio = { version = "1", features = ["rt-multi-thread", "time", "net"] }
