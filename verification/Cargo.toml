[package]
name = "mars_raw_utils"
version = "0.1.0"
edition = "2021"
publish = false

[dependencies]
sciimg = "*"
clap = "2"
serde = { version = "1", features = ["derive"] }
serde_json = "1"
wild = "2"
