[package]
name = "phrasle"
version = "0.1.0"
edition = "2021"
publish = false

[dependencies]
rand = "=0.10.3"
uuid = { version = "=1.27.0", features = ["v4", "serde"] }
axum = "=0.8.9"
dotenvy = "*"
md-5 = "=0.11.0"
quick-xml = { version = "=0.42.0", features = ["serialize"] }
reqwest = { version = "=0.13.5", default-features = false, features = ["query"] }
serde = { version = "*", features = ["derive"] }
sqlx = { version = "=0.9.0", default-features = false, features = ["runtime-tokio", "sqlite"] }
tokio = { version = "=1.53.2", features = ["macros", "rt-multi-thread", "net"] }
tower-http = { version = "*", features = ["cors"] }
tracing-subscriber = "*"
ts-rs = { version = "=12.0.1", features = ["uuid-impl"] }
