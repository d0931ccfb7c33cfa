[package]
name = "confluence"
version = "0.1.0"
edition = "2021"
publish = false

[dependencies]
base64 = "0.13"
chrono = "0.4"
futures = "0.3"
log = "0.4"
mime_guess = "2"
reqwest = { version = "0.11", default-features = false }
