[package]
name = "itmpc"
version = "0.1.0"
edition = "2021"
publish = false

[dependencies]
directories = "=5.0.1"
regex = "=1.13.1"
calamine = "0.38"
rust_xlsxwriter = "=0.102.0"
serde = { version = "=1.0.229", features = ["derive"] }
serde_json = "=1.0.154"
tokio = { version = "=1.54.1", features = ["rt", "fs", "macros"] }
reqwest = { version = "=0.11.27", default-features = false, features = ["stream", "rustls-tls"] }
futures-util = "=0.3.34"
zip = "=7.4.0"
image = { version = "=0.24.9", default-features = false, features = ["jpeg"] }
kamadak-exif = "=0.5.5"
colors-transform = "=0.2.11"
paddleocr = "=0.4.1"
