[package]
name = "history_export"
version = "0.1.0"
edition = "2021"
publish = false

[dependencies]
chrono = "0.4"
rusqlite = { version = "*", features = ["bundled"] }
structopt = "0.3"
toml = "*"
