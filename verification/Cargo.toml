[package]
name = "charip"
version = "0.1.0"
edition = "2021"
publish = false

[dependencies]
regex = "1"
ropey = "1"
markdown = "*"
pathdiff = "0.2"
urlencoding = "2"
serde = { version = "1", features = ["derive"] }
serde_yaml = "0.9"
serde_json = "1"
jsonschema = { version = "*", default-features = false }
tower-lsp = "0.20"
walkdir = "2"
nucleo-matcher = "0.3"
anyhow = "1"
shellexpand = "3"
config = { version = "0.14", default-features = false, features = ["toml"] }
petgraph = "0.6"
itertools = "*"

[dev-dependencies]
tempfile = "3"
