[package]
name = "ingest_core"
version = "0.1.0"
edition = "2021"
publish = false

[dependencies]
directories = "*"
fs_extra = "*"
serde = { version = "*", features = ["derive"] }
serde_json = "*"
sysinfo = "*"
