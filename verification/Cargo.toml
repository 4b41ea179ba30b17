[package]
name = "docktopus"
version = "0.1.0"
edition = "2021"
publish = false

[dependencies]
serde_yaml = "0.9"
serde_json = "1"
shell-words = "1"
serde = { version = "1", features = ["derive"] }
thiserror = "1"
bollard = "0.17"
futures-util = "0.3"
tokio = { version = "1", features = ["fs", "io-util", "macros", "rt", "time"] }
tar = "0.4"
tempfile = "3"
walkdir = "2"
uuid = { version = "1", features = ["v4"] }
sysinfo = "0.29"
log = "0.4"
