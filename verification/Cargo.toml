[package]
name = "zongce_web"
version = "0.1.0"
edition = "2021"
publish = false

[dependencies]
argon2 = "0.5"
password-hash = { version = "0.5", features = ["getrandom"] }
subtle = "2"
rand = "0.9"
uuid = { version = "1", features = ["v4"] }
mime = "0.3"
urlencoding = "2"
chrono = { version = "0.4", features = ["serde"] }
serde = { version = "1", features = ["derive"] }
serde_json = "1"
thiserror = "2"
axum = { version = "0.8", features = ["multipart"] }
askama = "0.14"
sqlx = { version = "0.8", default-features = false, features = ["sqlite", "runtime-tokio", "chrono", "migrate", "macros"] }
tokio = { version = "1", features = ["full"] }
tower = "0.5"
tower-http = { version = "0.6", features = ["fs"] }
tower-sessions = { version = "0.14", features = ["memory-store", "private"] }
tracing = "0.1"
tracing-subscriber = { version = "0.3", features = ["env-filter", "json"] }
dotenvy = "0.15"
calamine = "*"
csv = "1"
quick-xml = "*"
zip = { version = "*", default-features = false, features = ["deflate"] }
rust_xlsxwriter = "*"
