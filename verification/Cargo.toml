[package]
name = "openlr"
version = "0.1.0"
edition = "2021"
publish = false

[dependencies]
base64 = "0.13"
priority-queue = "*"
indexmap = "*"
rustc-hash = "*"
geo = "*"
wkt = "*"
serde = { version = "*", features = ["derive"] }
serde_json = "*"
thiserror = "*"
