[package]
name = "w2m"
version = "0.1.0"
edition = "2021"
publish = false

[dependencies]
url = "2"
scraper = "*"
lol_html = "*"
htmd = "*"
readability = { version = "*", default-features = false }
chrono = "0.4"
clap = { version = "4", features = ["derive"] }
tokio = { version = "1", features = ["full"] }
reqwest = { version = "*", default-features = false, features = ["rustls-tls"] }
futures = "0.3"
chromiumoxide = { version = "*", default-features = false, features = ["tokio-runtime"] }
serde = { version = "1", features = ["derive"] }
toml = "*"
dirs = "*"
thiserror = "*"
tracing = "0.1"
tracing-subscriber = { version = "0.3", features = ["env-filter"] }
