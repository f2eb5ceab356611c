[package]
name = "exam_parser"
version = "0.1.0"
edition = "2021"
publish = false

[dependencies]
regex = "1"
serde = { version = "1", features = ["derive"] }
serde_json = "1"
tempfile = "3"
env_logger = "*"
pdf_oxide = "*"
