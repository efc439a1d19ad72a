[package]
name = "reframe"
version = "0.1.0"
edition = "2021"
publish = false

[dependencies]
serde_json = "*"
quick-xml = { version = "=0.42.0", features = ["serialize"] }
swift-mt-message = "=3.1.5"
mx-message = "=0.1.9"
