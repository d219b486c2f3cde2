[package]
name = "nexspot"
version = "0.3.0"
edition = "2021"
publish = false

[dependencies]
anyhow = "1"
base64 = "0.22"
chrono = "0.4"
global-hotkey = "*"
image = { version = "0.25", default-features = false, features = ["png", "jpeg"] }
log = "0.4"
reqwest = { version = "0.12", default-features = false, features = ["json"] }
serde = { version = "1", features = ["derive"] }
serde_json = "1"
sevenz-rust = "*"
tokio = { version = "1", features = ["rt", "rt-multi-thread", "time", "sync", "macros"] }
uuid = { version = "1", features = ["v4"] }
zip = { version = "*", default-features = false, features = ["deflate"] }
