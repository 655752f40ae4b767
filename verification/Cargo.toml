[package]
name = "shelf_installer"
version = "0.1.0"
edition = "2021"
publish = false

[dependencies]
dirs = "1.0"
os_type = "2.2"
reqwest = "0.9"
serde = "1.0"
serde_derive = "1.0"
serde_json = "1.0"
