[package]
name = "rnaf"
version = "0.1.0"
edition = "2021"
publish = false

[dependencies]
crossterm = "*"
rss = "*"
futures = "*"
tokio = { version = "*", features = ["rt-multi-thread", "macros", "fs"] }
reqwest = { version = "*", default-features = false }
