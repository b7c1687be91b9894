[package]
name = "sentence_splitter"
version = "0.1.0"
edition = "2021"
publish = false

[dependencies]
serde = { version = "*", features = ["derive"] }
serde_json = "*"
thiserror = "*"
cached-path = "*"
dirs = "*"
lazy_static = "*"
