[package]
name = "perp_analytics"
version = "0.1.0"
edition = "2021"
publish = false

[dependencies]
clap = { version = "*", features = ["derive"] }
csv = "*"
base64 = "*"
thousands = "*"
