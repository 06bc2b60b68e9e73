[package]
name = "voting-app"
version = "0.1.0"
edition = "2021"
publish = false

[dependencies]
chrono = { version = "=0.4.45", default-features = false, features = ["std", "now"] }
urlencoding = "2"
serde = { version = "1", features = ["derive"] }
serde_json = "1"
axum = "0.8"
tower = "0.5"
http = "1"
tokio = { version = "1", features = ["macros", "rt-multi-thread", "net"] }
sea-orm = { version = "1", default-features = false, features = ["macros", "with-json", "with-chrono", "sqlx-postgres", "runtime-tokio-rustls"] }
genpdf = "0.2"
dotenvy = "0.15"
tracing = "0.1"
tracing-subscriber = { version = "0.3", default-features = false, features = ["fmt"] }
