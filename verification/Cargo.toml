[package]
name = "rssr"
version = "0.1.0"
edition = "2021"
publish = false

[dependencies]
dotenvy = "0.15"
feed-rs = "2"
html2text = "0.12"
reqwest = { version = "0.12", default-features = false, features = ["json", "rustls-tls"] }
roxmltree = "0.20"
serde = { version = "1", features = ["derive"] }
serde_json = "1"
sha2 = "0.10"
sqlx = { version = "0.8", default-features = false, features = ["runtime-tokio", "sqlite", "derive"] }
thiserror = "2"
tokio = { version = "1", features = ["rt-multi-thread", "sync", "time"] }
