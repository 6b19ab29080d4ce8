[package]
name = "syres"
version = "0.1.0"
edition = "2021"
publish = false

[dependencies]
serde_json = "*"
anyhow = "*"
color-eyre = "*"
crossterm = "*"
ratatui = "*"
reqwest = { version = "*", default-features = false, features = ["json", "cookies"] }
tokio = { version = "*", features = ["rt-multi-thread", "macros", "time"] }
