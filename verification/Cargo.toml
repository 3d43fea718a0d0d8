[package]
name = "traceon"
version = "0.1.0"
edition = "2021"
publish = false

[dependencies]
chrono = "0.4"
nu-ansi-term = "*"
serde_json = "1"
tracing = "0.1"
tracing-subscriber = { version = "0.3", features = ["env-filter", "registry"] }
