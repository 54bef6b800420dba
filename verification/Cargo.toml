[package]
name = "gitlabctl"
version = "0.1.0"
edition = "2021"
publish = false

[dependencies]
chrono = "0.4"
chrono-humanize = "0.2"
clap = "2"
colored = "2"
dirs = "*"
futures = "0.3"
gitlab = "*"
itertools = "0.10"
serde = { version = "1", features = ["derive"] }
tokio = { version = "1", features = ["rt-multi-thread", "macros"] }
toml = "*"
