[package]
name = "notion_to_md_rs"
version = "0.1.0"
edition = "2021"
publish = false

[dependencies]
base64 = "0.22"
reqwest = { version = "0.12", default-features = false, features = ["blocking"] }
