[package]
name = "conjugator"
version = "0.1.0"
edition = "2021"
publish = false

[dependencies]
scraper = "=0.27.0"
clap = { version = "*", features = ["derive"] }
reqwest = { version = "*", default-features = false }
serde = { version = "*", features = ["derive"] }
tokio = { version = "*", features = ["rt", "rt-multi-thread", "macros", "fs", "io-util"] }
url = "*"
aws-config = "*"
aws-sdk-polly = "*"
