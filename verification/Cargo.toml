[package]
name = "time-util"
version = "0.1.0"
edition = "2021"
publish = false

[dependencies]
chrono = { version = "0.4", default-features = false, features = ["std"] }
chrono-tz = "*"
math-util = "*"
serde = "1"

[dev-dependencies]
serde_json = "1"
