[package]
name = "smes"
version = "0.1.0"
edition = "2021"
publish = false

[dependencies]
chrono = "0.4"
scraper = "*"
minify-html = "*"
base64 = "0.22"
image = { version = "0.25", default-features = false, features = ["png"] }
cookie = "0.18"
reqwest = { version = "0.12", default-features = false, features = ["json", "rustls-tls"] }
tokio = { version = "1", features = ["macros", "rt-multi-thread", "sync", "time"] }
backon = "1"
serde = { version = "1", features = ["derive"] }
serde_json = "1"
serde-aux = "4"
hashbrown = "*"
thiserror = "*"
tracing = "0.1"
tracing-subscriber = { version = "0.3", features = ["env-filter"] }
bytes = "1"
