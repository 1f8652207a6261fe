[package]
name = "iptv_core"
version = "0.1.0"
edition = "2021"
publish = false

[dependencies]
chrono = "0.4"
quick-xml = "0.36"
rusqlite = { version = "*", features = ["bundled"] }
serde = { version = "1", features = ["derive"] }
serde_json = "1"
thiserror = "*"
reqwest = { version = "0.12", default-features = false, features = ["json", "blocking", "rustls-tls"] }
