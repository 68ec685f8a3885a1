[package]
name = "crawl"
version = "0.1.0"
edition = "2021"
publish = false

[dependencies]
url = "2"
html_parser = "*"
reqwest = { version = "0.12", features = ["blocking"] }
chrono = "0.4"
anyhow = "1"
