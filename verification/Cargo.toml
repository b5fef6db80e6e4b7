[package]
name = "ferss"
version = "0.1.0"
edition = "2021"
publish = false

[dependencies]
chrono = { version = "0.4", default-features = false, features = ["std"] }
rss = "2"
regex = "1"
reqwest = { version = "0.12", default-features = false, features = ["blocking"] }
