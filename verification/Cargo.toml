[package]
name = "doc_value"
version = "0.1.0"
edition = "2021"
publish = false

[dependencies]
toml = "=0.1.30"
serde_json = { version = "1", features = ["preserve_order"] }
bson = "2.15"
chrono = "0.4"
num-traits = "0.2"
