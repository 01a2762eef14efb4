[package]
name = "cyclonedx_export"
version = "0.1.0"
edition = "2021"
publish = false

[dependencies]
jiff = "0.2"
uuid = { version = "1", features = ["v4"] }
serde = { version = "1", features = ["derive"] }
serde_json = "1"
clap = { version = "4", features = ["derive"] }
