[package]
name = "bookmark_export"
version = "0.1.0"
edition = "2021"
publish = false

[dependencies]
console = "*"
csv = "*"
dialoguer = "*"
dirs = "*"
serde_json = "*"
