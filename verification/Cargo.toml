[package]
name = "photojournalism"
version = "0.1.0"
edition = "2021"
publish = false

[dependencies]
scraper = "=0.27.0"
rand = "=0.10.3"
rss = "=2.1.2"
reqwest = "=0.12.28"
reqwest-middleware = "=0.4.2"
http-cache-reqwest = "=0.16.0"
tokio = { version = "*", features = ["macros", "rt-multi-thread", "time"] }
actix-web = "*"
actix-files = "*"
serde = { version = "*", features = ["derive"] }
serde_json = "*"
log = "*"
