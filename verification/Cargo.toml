[package]
name = "nitinol_sqlite_adaptor"
version = "0.1.0"
edition = "2021"
publish = false

[dependencies]
sqlx = { version = "=0.8.6", features = ["sqlite", "runtime-tokio", "migrate"] }
dotenvy = "=0.15.7"
