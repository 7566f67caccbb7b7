[package]
name = "losses"
version = "0.1.0"
edition = "2021"
publish = false

[dependencies]
chrono = { version = "0.4", default-features = false, features = ["std", "clock"] }
csv = "1"
clap = { version = "4", features = ["derive"] }
dirs = "*"
