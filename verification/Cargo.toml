[package]
name = "postgres_browser_proxy"
version = "0.1.0"
edition = "2021"
publish = false

[dependencies]
base64 = "0.20"
regex = "1"
postgres = { version = "0.19", features = ["with-chrono-0_4"] }
chrono = "0.4"
clap = { version = "4", features = ["derive"] }
r2d2 = "0.8"
r2d2_postgres = "0.18"
threadpool = "1.8"
image = "0.24"
