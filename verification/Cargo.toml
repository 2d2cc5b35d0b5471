[package]
name = "robusta"
version = "0.1.0"
edition = "2021"
publish = false

[dependencies]
rand = "0.8"
zip = { version = "*", default-features = false, features = ["deflate"] }
tracing = "0.1"
tracing-subscriber = { version = "0.3", features = ["env-filter", "fmt"] }
