[package]
name = "steam_profile"
version = "0.1.0"
edition = "2021"
publish = false

[dependencies]
scraper = "*"
serde_json = "*"
tokio = { version = "*", features = ["macros", "rt", "rt-multi-thread"] }
ureq = "*"
tabled = "*"
owo-colors = "*"
