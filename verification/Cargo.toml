[package]
name = "csac_client"
version = "0.1.0"
edition = "2021"
publish = false

[dependencies]
aes = "0.8"
cbc = { version = "0.1", features = ["alloc", "block-padding"] }
base64 = "0.22"
regex = "1"
serde = { version = "1", features = ["derive"] }
serde_json = "1"
once_cell = "1"
reqwest = { version = "0.12", default-features = false, features = ["multipart", "cookies"] }
