[package]
name = "muffetbot"
version = "0.1.0"
edition = "2021"
publish = false

[dependencies]
easy-scraper = "*"
home = "*"
rand = "*"
reqwest = { version = "*", default-features = false, features = ["blocking", "rustls-tls"] }
