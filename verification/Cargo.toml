[package]
name = "store_browser"
version = "0.1.0"
edition = "2021"
publish = false

[dependencies]
dirs = "*"
relm4 = { version = "0.9", features = ["libadwaita"] }
tracing = "0.1"
tracing-subscriber = { version = "0.3", features = ["env-filter"] }
