[package]
name = "odyssey_hub"
version = "0.1.0"
edition = "2021"
publish = false

[dependencies]
sha2 = "*"
hex = "*"
serde = { version = "1", features = ["derive"] }
json5 = "*"
app_dirs2 = "*"
nusb = "*"
