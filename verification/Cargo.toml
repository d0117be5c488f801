[package]
name = "clientd"
version = "0.1.0"
edition = "2021"
publish = false

[dependencies]
serde = { version = "1", features = ["derive"] }
serde_json = "1"
tokio = { version = "1", features = ["full"] }
axum = "*"
reqwest = { version = "*", default-features = false, features = ["json"] }
clap = { version = "*", features = ["derive"] }
tower = "*"
tower-http = { version = "*", features = ["trace"] }
tracing = "0.1"
tracing-subscriber = { version = "0.3", features = ["env-filter"] }
rand = "0.8"
sled = "0.34"
bitcoin = { version = "*", features = ["serde", "rand"] }
bitcoin_hashes = "*"
lightning = "*"
lightning-invoice = { version = "*", features = ["serde"] }
async-trait = "0.1"
