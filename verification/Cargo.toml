[package]
name = "rssbox"
version = "0.1.0"
edition = "2021"
publish = false

[dependencies]
rss = "2"
atom_syndication = "0.12"
html2text = "0.12"
md5 = "0.7"
uuid = { version = "1", features = ["v4"] }
chrono = "0.4"
serde = { version = "1", features = ["derive"] }
serde_json = "1"
toml = "0.8"
tokio = { version = "1", features = ["rt-multi-thread", "macros", "sync", "time"] }
reqwest = { version = "0.11", default-features = false, features = ["json", "socks", "rustls-tls"] }
sqlx = { version = "0.7", default-features = false, features = ["sqlite", "runtime-tokio"] }
anyhow = "1"
log = "0.4"
env_logger = "0.10"
platform-dirs = "0.3"
