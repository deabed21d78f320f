[package]
name = "vxug_scraper"
version = "0.1.0"
edition = "2021"
publish = false

[dependencies]
dashmap = "6"
scraper = "*"
reqwest = { version = "0.12", features = ["blocking"] }
tokio = { version = "1", features = ["full"] }
futures = "0.3"
indicatif = "0.17"

[dev-dependencies]
regex = "1"
