[package]
name = "upholi"
version = "0.1.0"
edition = "2021"
publish = false

[dependencies]
aes-gcm-siv = "0.10"
base64 = "0.13"
sha2 = "0.10"
md5 = "0.7"
pbkdf2 = { version = "0.11", features = ["simple"] }
rand = "0.8"
serde = { version = "1", features = ["derive"] }
serde_json = "1"
chrono = "0.4"
rexif = "0.7"
config = "0.13"
