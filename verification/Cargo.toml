[package]
name = "download_stats"
version = "0.1.0"
edition = "2021"
publish = false

[dependencies]
actix-files = "=0.2.2"
actix-rt = "=1.1.1"
actix-web = { version = "=2.0.0", default-features = false }
chrono = { version = "=0.4.19", features = ["serde"] }
dotenv = "=0.15.0"
env_logger = "=0.7.1"
listenfd = "=0.3.5"
postgres = { version = "=0.17.5", features = ["with-chrono-0_4"] }
r2d2 = "=0.8.10"
r2d2_postgres = "=0.16.0"
serde = { version = "=1.0.229", features = ["derive"] }
serde_json = "=1.0.154"
tera = "=1.16.0"
