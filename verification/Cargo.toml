[package]
name = "qga_client"
version = "0.1.0"
edition = "2021"
publish = false

[dependencies]
anyhow = "*"
arboard = "*"
base64 = "*"
clap = { version = "*", features = ["derive"] }
ctrlc = "*"
indicatif = "*"
serde = { version = "*", features = ["derive"] }
serde_json = "*"
walkdir = "*"
