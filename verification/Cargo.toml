[package]
name = "wifiqr"
version = "0.1.0"
edition = "2021"
publish = false

[dependencies]
qrcodegen = "1.8"
image = { version = "0.25", default-features = false, features = ["png", "jpeg"] }
imageproc = { version = "0.25", default-features = false }
clap = "2.34"
rpassword = "5.0"
