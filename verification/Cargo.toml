[package]
name = "rn-site"
version = "0.1.0"
edition = "2021"
publish = false

[dependencies]
axum = "0.8"
tokio = { version = "1", features = ["macros", "rt-multi-thread", "net", "time", "fs", "signal"] }
hiqlite = { version = "=0.14.0", default-features = false, features = ["sqlite", "cache", "auto-heal"] }
serde = { version = "1", features = ["derive"] }
serde_json = "1"
base64 = "0.22"
uuid = { version = "1", features = ["v4"] }
getrandom = "0.3"
thiserror = "2"
tracing = "0.1"
