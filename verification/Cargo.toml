[package]
name = "yaolist"
version = "0.1.0"
edition = "2021"
publish = false

[dependencies]
encoding_rs = "=0.8.44"
urlencoding = "=2.1.3"
mime_guess = "=2.0.5"
chrono = "=0.4.45"
bcrypt = "=0.19.3"
serde = { version = "=1.0.229", features = ["derive"] }
serde_json = "=1.0.154"
rand = "=0.8.8"
flate2 = "=1.1.10"
base64 = "=0.22.1"
hmac = "0.12"
sha1 = "0.10"
sha2 = "0.10"
md5 = "0.7"
uuid = { version = "1", features = ["v4"] }
totp-rs = { version = "5", features = ["otpauth", "qr"] }
