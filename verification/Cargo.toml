[package]
name = "exercises"
version = "0.1.0"
edition = "2021"
publish = false

[dependencies]
futures = "=0.3.34"
reqwest = { version = "=0.13.5", features = ["blocking"] }
scraper = "=0.29.0"
thiserror = "=2.0.21"
tokio = { version = "=1.54.1", features = ["rt", "time"] }
url = "=2.5.8"
