[package]
name = "auto-harness"
version = "0.1.0"
edition = "2021"
publish = false

[dependencies]
serde_json = "1"
ureq = { version = "2", features = ["json"] }
