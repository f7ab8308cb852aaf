[package]
name = "cached"
version = "0.1.0"
edition = "2021"
publish = false

[dependencies]
bytes = "*"
clap = { version = "*", features = ["derive"] }
tokio = { version = "*", features = ["full"] }
