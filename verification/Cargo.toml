[package]
name = "stellar"
version = "0.1.0"
edition = "2021"
publish = false

[dependencies]
regex = "=1.13.1"
aes-gcm = "=0.10.3"
base64 = "=0.22.1"
sha2 = "=0.10.9"
serde = { version = "=1.0.229", features = ["derive"] }
serde_json = "=1.0.154"
reqwest = { version = "0.12", default-features = false, features = ["json", "stream"] }
tokio = { version = "1", features = ["rt", "macros", "time"] }
tokio-stream = "0.1"
chrono = { version = "0.4", default-features = false, features = ["clock"] }
