[package]
name = "siren"
version = "0.1.0"
edition = "2021"
publish = false

[dependencies]
aes-gcm = "*"
md-5 = "*"
serde_json = "*"
getrandom = "0.2"
base64 = "*"
uuid = "*"
