[package]
name = "dev_dashboard"
version = "0.1.0"
edition = "2021"
publish = false

[dependencies]
futures = "0.3"
glob = "0.3"
nvml-wrapper = "0.9"
reqwest = { version = "0.11", default-features = false, features = ["stream"] }
serde = { version = "1", features = ["derive"] }
serde_json = "1"
sysinfo = "0.29"
tokio = { version = "1", features = ["macros", "process", "rt", "time"] }
whoami = "1"
