[package]
name = "torrent_flow"
version = "0.1.0"
edition = "2021"
publish = false

[dependencies]
scraper = "=0.27.0"
reqwest = { version = "=0.12.28", default-features = false, features = ["rustls-tls"] }
tokio = { version = "=1.53.2", features = ["full"] }
serde_json = "=1.0.151"
anyhow = "=1.0.104"
rusqlite = { version = "=0.40.2", features = ["bundled"] }
dotenv = "=0.15.0"
dirs = "=7.0.0"
log = "=0.4.34"
env_logger = "=0.11.11"
lazy_static = "=1.5.1"
once_cell = "=1.21.4"
librqbit = { version = "=9.0.1", default-features = false, features = ["rust-tls"] }
