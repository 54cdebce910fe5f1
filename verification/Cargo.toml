[package]
name = "zjstatus"
version = "0.1.0"
edition = "2021"
publish = false

[dependencies]
chrono = { version = "*", features = ["unstable-locales"] }
chrono-tz = "*"
