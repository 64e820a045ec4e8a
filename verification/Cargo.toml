[package]
name = "crawler"
version = "0.1.0"
edition = "2021"
publish = false

[dependencies]
scraper = "*"
serde = { version = "*", features = ["derive"] }
serde_json = "*"
toml = "*"
clap = { version = "*", features = ["derive"] }
tokio = { version = "*", features = ["rt-multi-thread", "macros", "sync", "time"] }
futures = "*"
reqwest = { version = "*", default-features = false }
async-trait = "*"
