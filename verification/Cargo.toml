[package]
name = "aerie"
version = "0.1.0"
edition = "2021"
publish = false

[dependencies]
glob = "0.3"
im = { version = "15", features = ["serde"] }
base64 = "0.22"
regex-syntax = "0.8"
serde = { version = "1", features = ["derive"] }
serde_json = "1"
toml = "*"
clap = { version = "4", features = ["derive"] }
anyhow = "1"
dotenvy = "*"
sled = "0.34"
postcard = { version = "1", features = ["alloc"] }
image = { version = "0.25", default-features = false, features = ["jpeg", "png", "gif", "webp"] }
url = "2"
reqwest = { version = "0.12", default-features = false, features = ["blocking"] }
