[package]
name = "thirtyfour"
version = "0.1.0"
edition = "2021"
publish = false

[dependencies]
fantoccini = "*"
serde = "*"
serde_json = "*"
tokio = { version = "*", features = ["fs", "io-util", "rt", "macros"] }
