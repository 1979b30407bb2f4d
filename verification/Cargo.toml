[package]
name = "buildit"
version = "0.1.0"
edition = "2021"
publish = false

[dependencies]
kdl = "=6.7.1"
uuid = { version = "=1.29.0", features = ["v7"] }
chrono = "=0.4.45"
hmac = "=0.12.1"
sha2 = "=0.10.9"
hex = "=0.4.3"
serde_json = "=1.0.154"
md5 = "=0.7.0"
clap = { version = "=4.6.7", features = ["derive"] }
anyhow = "=1.0.104"
urlencoding = "2"
