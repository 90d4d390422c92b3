[package]
name = "chatalone"
version = "0.1.0"
edition = "2021"
publish = false

[dependencies]
base64 = "*"
rust-crypto = "*"
dashmap = "*"
nanoid = "*"
time = "*"
tokio = { version = "*", features = ["sync", "rt-multi-thread", "macros", "net", "time"] }
axum = { version = "*", features = ["ws"] }
futures = "*"
serde = { version = "*", features = ["derive"] }
serde_json = "*"
