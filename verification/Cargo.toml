[package]
name = "cherries_4_prs"
version = "0.1.0"
edition = "2021"
publish = false

[dependencies]
chrono = { version = "0.4", features = ["serde"] }
color-eyre = "0.6"
octocrab = "0.17"
rand = "0.8"
reqwest = { version = "0.11", features = ["json"] }
secrecy = "0.8"
serde = { version = "1", features = ["derive"] }
serde_json = "1"
structopt = "0.3"
tokio = { version = "1", features = ["full"] }
toml = "0.5"
tracing = "0.1"
tracing-subscriber = { version = "0.3", features = ["env-filter"] }
