[package]
name = "comic_scan"
version = "0.1.0"
edition = "2021"
publish = false

[dependencies]
anyhow = "1"
image = "0.24"
md-5 = "0.10"
mountpoints = "0.2"
regex = "1"
serde = { version = "1", features = ["derive"] }
urlencoding = "2"
uuid = { version = "1", features = ["v4"] }
