[package]
name = "rusync"
version = "0.10.0"
edition = "2021"
publish = false

[dependencies]
anyhow = "1"
chrono = "0.4"
clap = { version = "3", features = ["derive"] }
colored = "2"
humansize = "1"
humantime = "2"
regex = "1"
terminal_size = "0.2"

[dev-dependencies]
tempfile = "3"
