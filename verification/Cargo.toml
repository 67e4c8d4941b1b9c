[package]
name = "tokimo_ffmpeg"
version = "0.1.0"
edition = "2021"
publish = false

[dependencies]
encoding_rs = "0.8"
rsmpeg = "*"
serde = { version = "1", features = ["derive"] }
tracing = "0.1"
