[package]
name = "toolbench"
version = "0.1.0"
edition = "2021"
publish = false

[dependencies]
serde = { version = "=1.0.229", features = ["derive"] }
serde_json = "=1.0.154"
chrono = "=0.4.45"
base64 = "=0.22.1"
notify = "=8.2.1"
tokio = { version = "=1.54.1", features = ["sync"] }
clap = { version = "4", features = ["derive"] }
dialoguer = "0.11"
