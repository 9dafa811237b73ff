[package]
name = "outlook_for_linux"
version = "0.4.1"
edition = "2021"
publish = false

[dependencies]
anyhow = "1"
base64 = "0.22"
ctap-hid-fido2 = "3"
notify-rust = "4"
percent-encoding = "2"
serde = { version = "1", features = ["derive"] }
serde_json = "1"
url = "2"
webkit2gtk = { version = "2", features = ["v2_40"] }
