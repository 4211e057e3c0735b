[package]
name = "sheet_export"
version = "0.1.0"
edition = "2021"
publish = false

[dependencies]
csv = "=1.4.0"
ironworks = { version = "=0.4.1", features = ["excel", "ffxiv", "sqpack"] }
regex = "=1.13.1"
serde = { version = "=1.0.229", features = ["derive"] }
serde_yml = "=0.0.13"
