[package]
name = "ockam_trust"
version = "0.1.0"
edition = "2021"
publish = false

[dependencies]
hex = "=0.4.3"
minicbor = { version = "=0.19.1", features = ["alloc", "derive"] }
p256 = { version = "=0.13.2", default-features = false }
zeroize = "=1.9.1"
serde = { version = "=1.0.229", features = ["derive"] }
serde_json = "=1.0.154"
clap = { version = "=4.6.7", features = ["derive"] }
miette = "=5.10.0"
colorful = "=0.2.2"
tokio = { version = "=1.54.1", features = ["sync", "macros", "rt"] }
tracing = "=0.1.44"
duct = "=0.13.7"
tauri = { version = "2", default-features = false }
