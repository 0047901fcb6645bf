[package]
name = "myth"
version = "0.1.1"
edition = "2021"
publish = false

[dependencies]
regex = "1"
sha1 = "0.10"
uuid = { version = "1", features = ["v4"] }
serde = { version = "1", features = ["derive"] }
serde_json = "1"
tokio = { version = "1", features = ["full"] }
anyhow = "1"
tracing = "0.1"
dirs = "5"
which = "*"
mimalloc = "*"
