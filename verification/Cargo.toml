[package]
name = "buongiorno-caffe-bot"
version = "0.1.0"
edition = "2021"
publish = false

[dependencies]
anyhow = "*"
buongiornissimo-rs = "*"
chrono = "*"
rand = "*"
reqwest = { version = "*", default-features = false, features = ["rustls-tls"] }
scraper = "*"
sqlx = { version = "*", default-features = false, features = ["sqlite", "runtime-tokio-rustls"] }
tokio = { version = "*", default-features = false, features = ["rt-multi-thread", "macros", "time"] }
tokio-cron-scheduler = "*"
url = "*"
