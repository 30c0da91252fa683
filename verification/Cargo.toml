[package]
name = "finance"
version = "0.1.0"
edition = "2021"
publish = false

[dependencies]
chrono = { version = "=0.4.45", default-features = false, features = ["std", "clock", "serde"] }
hmac = "=0.12.1"
sha2 = "=0.10.9"
hex = "=0.4.3"
urlencoding = "=2.1.3"
serde = { version = "1", features = ["derive"] }
serde_json = "1"
serde_yaml = "0.9"
anyhow = "1"
tokio = { version = "1", features = ["full"] }
reqwest = { version = "0.12", default-features = false, features = ["json", "rustls-tls"] }
sqlx = { version = "0.8", default-features = false, features = ["sqlite", "runtime-tokio", "chrono"] }
tracing = "0.1"
axum = "0.8"
clap = { version = "4", features = ["derive"] }
dotenvy = "0.15"
walkdir = "2"
schemars = "*"
utoipa = "5"
futures-util = "0.3"
tokio-tungstenite = "*"
feed-rs = "2"
ta = "0.5"
plotters = { version = "0.3", default-features = false, features = ["bitmap_backend", "bitmap_encoder", "ab_glyph", "all_series", "all_elements"] }
yahoo_finance_api = "*"
