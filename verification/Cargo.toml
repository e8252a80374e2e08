[package]
name = "nanofile_service"
version = "0.1.0"
edition = "2021"
publish = false

[dependencies]
hmac = "=0.12.1"
sha2 = "=0.10.9"
pbkdf2 = "=0.12.2"
subtle = "=2.6.1"
hex = "=0.4.3"
rand = "=0.10.3"
base64 = "=0.22.1"
chrono = "=0.4.45"
uuid = { version = "=1.29.0", features = ["v4"] }
lettre = { version = "=0.11.23", default-features = false, features = ["builder"] }
tokio = { version = "=1.54.1", features = ["rt"] }
aes = "=0.9.4"
cbc = { version = "=0.2.1", features = ["alloc"] }
totp-rs = { version = "=6.0.0", features = ["gen_secret", "otpauth"] }
serde = { version = "=1.0.229", features = ["derive"] }
serde_json = "=1.0.154"
