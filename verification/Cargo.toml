[package]
name = "serpeo"
version = "0.1.0"
edition = "2021"
publish = false

[dependencies]
url = "2"
scraper = "*"
roxmltree = "*"
reqwest = { version = "0.12", default-features = false, features = ["blocking"] }
