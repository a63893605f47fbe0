[package]
name = "overbuddy"
version = "0.1.0"
edition = "2021"
publish = false

[dependencies]
similar = "*"
serde_json = "*"
serde = { version = "*", features = ["derive"] }
thiserror = "*"
sysinfo = "*"
dunce = "*"
