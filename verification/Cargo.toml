[package]
name = "he_walks_unseen"
version = "0.1.0"
edition = "2021"
publish = false

[dependencies]
uuid = { version = "1", features = ["v4"] }
crossterm = "0.28"
ratatui = "0.29"
