[package]
name = "mcping"
version = "0.1.0"
edition = "2021"
publish = false

[dependencies]
anyhow = "1"
base64 = "0.22"
clap = { version = "4", features = ["derive"] }
hickory-resolver = "0.24"
png = "*"
serde = { version = "1", features = ["derive"] }
serde_json = "1"
