[package]
name = "wdr_maus"
version = "0.1.0"
edition = "2021"
publish = false

[dependencies]
anyhow = "*"
chrono = "*"
frankenstein = { version = "*", features = ["client-ureq"] }
lazy-regex = "*"
retry = "*"
scraper = "*"
serde = { version = "*", features = ["derive"] }
serde_json = "*"
serde_yaml = "*"
tempfile = "*"
ureq = "*"
url = "*"
