[package]
name = "rofd"
version = "0.1.0"
edition = "2021"
publish = false

[dependencies]
zip = { version = "*", default-features = false, features = ["deflate"] }
cairo-rs = { version = "*", default-features = false }
qmetaobject = "*"
log = "*"
env_logger = "*"
