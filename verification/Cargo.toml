[package]
name = "tide"
version = "0.1.0"
edition = "2021"
publish = false

[dependencies]
bytes = "0.5"
cookie = { version = "0.14", features = ["percent-encode"] }
futures = "0.3"
hyper = { version = "0.13", default-features = false }
route-recognizer = "0.1"
serde = "1"
serde_json = "1"
serde_qs = "0.5"
