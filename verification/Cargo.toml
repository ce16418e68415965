[package]
name = "stac"
version = "0.1.0"
edition = "2021"
publish = false

[dependencies]
serde = "=1.0.229"
serde_json = { version = "=1.0.154", features = ["arbitrary_precision", "preserve_order"] }
url = "=2.5.8"
