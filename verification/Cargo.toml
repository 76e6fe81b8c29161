[package]
name = "telly"
version = "0.1.0"
edition = "2021"
publish = false

[dependencies]
csv = "*"
scraper = "*"
webp = "*"
async-trait = "*"
reqwest = { version = "*", default-features = false }
tokio = { version = "*", default-features = false, features = ["rt", "macros"] }
