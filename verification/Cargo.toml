[package]
name = "hs_tracker"
version = "0.1.0"
edition = "2021"
publish = false

[dependencies]
serde_json = "1"
serde = { version = "1", features = ["derive"] }
base64 = "0.22"
form_urlencoded = "1"
discord-rich-presence = "*"
