[package]
name = "oreq"
version = "0.1.0"
edition = "2021"
publish = false

[dependencies]
fuzzy-matcher = "*"
regex = "*"
url = "*"
clap = { version = "*", features = ["derive"] }
openapiv3 = "*"
serde_json = "*"
serde_yaml = "*"
crossterm = "*"
