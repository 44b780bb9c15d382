[package]
name = "funkfabrik"
version = "0.1.0"
edition = "2021"
publish = false

[dependencies]
axum = "=0.8.9"
reqwest = { version = "=0.12.28", default-features = false, features = ["rustls-tls"] }
serde = { version = "=1.0.229", features = ["derive"] }
serde_json = "=1.0.154"
tera = { version = "2", features = ["glob_fs"] }
tokio = { version = "=1.54.1", features = ["macros", "rt-multi-thread", "net"] }
tower-http = { version = "=0.6.11", features = ["fs"] }
