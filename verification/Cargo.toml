[package]
name = "codex_hook"
version = "0.1.0"
edition = "2021"
publish = false

[dependencies]
serde_json = "*"
reqwest = { version = "*", default-features = false }
tokio = { version = "*", features = ["rt", "macros", "time"] }
dotenvy = "*"
notify-rust = "*"
