[package]
name = "stun_types"
version = "0.1.0"
edition = "2021"
publish = false

[dependencies]
hmac = "*"
md5 = "*"
sha1 = "*"
sha2 = "*"
