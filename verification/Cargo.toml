[package]
name = "prism_engine"
version = "0.1.0"
edition = "2021"
publish = false

[dependencies]
serde_json = "*"
log = "*"
reqwest = { version = "*", default-features = false, features = ["blocking", "json"] }
