[package]
name = "host_telemetry"
version = "0.1.0"
edition = "2021"
publish = false

[dependencies]
serde = { version = "1", features = ["derive"] }
serde_json = "1"
sysinfo = "0.29"
reqwest = { version = "0.11", default-features = false, features = ["blocking", "json"] }
