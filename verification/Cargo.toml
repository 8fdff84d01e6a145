[package]
name = "wavedrom"
version = "0.1.0"
edition = "2021"
publish = false

[dependencies]
pulldown-cmark = { version = "0.9", default-features = false }
serde = { version = "1", features = ["derive"] }
json5 = "0.4"
serde_json = "1"
