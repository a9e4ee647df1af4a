[package]
name = "tracker"
version = "0.1.0"
edition = "2021"
publish = false

[dependencies]
axum = { version = "=0.6.20", features = ["headers", "macros"] }
axum-macros = "=0.3.8"
axum_csrf = "=0.7.2"
dotenvy = "=0.15.7"
headers = "=0.3.9"
http = "=0.2.12"
jsonwebtoken = "=8.3.0"
once_cell = "=1.21.4"
sea-orm = { version = "=0.12.15", default-features = false }
serde = { version = "=1.0.229", features = ["derive"] }
serde_json = { version = "=1.0.154", features = ["preserve_order"] }
tera = { version = "=1.20.1", default-features = false }
tokio = { version = "=1.54.1", features = ["full"] }
tower-cookies = "=0.9.0"
tower-http = { version = "=0.4.4", features = ["fs"] }
tracing = "=0.1.44"
tracing-subscriber = { version = "=0.3.23", features = ["env-filter"] }
uuid = { version = "=1.29.1", features = ["v4"] }
