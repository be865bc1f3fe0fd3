[package]
name = "xray_sub"
version = "0.1.0"
edition = "2021"
publish = false

[dependencies]
anyhow = "1"
base64 = "0.22"
clap = { version = "4", features = ["derive"] }
percent-encoding = "2"
reqwest = { version = "0.12", features = ["blocking"] }
serde_json = "1"

[dev-dependencies]
regex = "1"
