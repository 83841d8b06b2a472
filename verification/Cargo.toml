[package]
name = "shapegraph"
version = "0.1.0"
edition = "2021"
publish = false

[dependencies]
sha2 = "=0.11.0"
serde = { version = "=1.0.229", features = ["derive"] }
serde_json = "=1.0.151"
serde_json_canonicalizer = "=0.3.2"
gltf-json = "=1.4.1"
glam = "=0.34.1"
tokio = { version = "=1.53.2", features = ["rt", "rt-multi-thread", "macros", "signal", "time"] }
axum = { version = "=0.8.9", features = ["multipart"] }
futures-util = "=0.3.34"
tokio-stream = "=0.1.19"
chrono = "=0.4.45"
mime_guess = "=2.0.5"
clap = { version = "=4.6.7", features = ["derive"] }
rust-embed = "=8.13.0"
opencascade = "=0.3.0"
ngoni = { version = "=0.1.11", features = ["aws"] }
