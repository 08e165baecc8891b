[package]
name = "qrcode_generator"
version = "0.1.0"
edition = "2021"
publish = false

[dependencies]
crc-any = "2"
qrcode = { version = "0.14", default-features = false }
image = { version = "0.25", default-features = false, features = ["png"] }
serde = { version = "1", features = ["derive"] }
ron = "*"
