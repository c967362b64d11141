[package]
name = "cpparser"
version = "0.1.0"
edition = "2021"
publish = false

[dependencies]
unicode-width = "*"
shlex = "*"
clap = { version = "*", features = ["derive"] }
atty = "*"
serde = { version = "*", features = ["derive"] }
serde_json = "*"
