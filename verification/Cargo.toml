[package]
name = "media_relay"
version = "0.1.0"
edition = "2021"
publish = false

[dependencies]
serde_json = "*"
anyhow = "*"
log = "*"
dotenv = "*"
http_req = "*"
reqwest = { version = "*", default-features = false }
tokio = { version = "*", features = ["rt", "macros"] }

[dev-dependencies]
form_urlencoded = "*"
