[package]
name = "daydream"
version = "0.1.0"
edition = "2021"
publish = false

[dependencies]
serde = { version = "1", features = ["derive"] }
serde_json = "1"
uuid = { version = "1", features = ["v4"] }
md-5 = "0.10"
base64 = "0.22"
dirs = "5"
snafu = "0.8"
