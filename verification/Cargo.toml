[package]
name = "minipost"
version = "0.1.0"
edition = "2021"
publish = false

[dependencies]
sha2 = "=0.10.9"
rand = "=0.8.8"
uuid = { version = "=1.27.0", features = ["v4", "serde"] }
serde = { version = "=1.0.229", features = ["derive"] }
axum = "=0.7.9"
axum-extra = { version = "=0.9.6", features = ["typed-header"] }
tokio = { version = "=1.53.2", features = ["macros", "rt-multi-thread", "net", "sync"] }
polodb_core = "=4.4.2"
