[package]
name = "monstertruck_tracking"
version = "0.1.0"
edition = "2021"
publish = false

[dependencies]
cgmath = "0.18"
serde = { version = "=1.0.229", features = ["derive"] }
serde_json = "=1.0.154"
thiserror = "=1.0.69"
