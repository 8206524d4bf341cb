[package]
name = "file_sync"
version = "0.1.0"
edition = "2021"
publish = false

[dependencies]
sha2 = "0.10"
chrono = "0.4"
actix-web = { version = "4", default-features = false, features = ["macros", "rustls-0_23"] }
tokio = { version = "1", features = ["rt-multi-thread", "macros", "fs", "sync"] }
reqwest = { version = "0.12", default-features = false, features = ["rustls-tls"] }
hotwatch = "0.5"
serde = { version = "1", features = ["derive"] }
serde_json = "1"
toml = "*"
anyhow = "1"
futures = "0.3"
rustls = "0.23"
rustls-pemfile = "2"
