[package]
name = "sheet_records"
version = "0.1.0"
edition = "2021"
publish = false

[dependencies]
anyhow = "*"
calamine = "*"
serde_json = "*"
