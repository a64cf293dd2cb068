[package]
name = "sgdb"
version = "0.1.0"
edition = "2021"
publish = false

[dependencies]
sqlx = { version = "*", default-features = false, features = ["postgres", "runtime-tokio", "time", "bigdecimal"] }
tokio = { version = "*", features = ["rt-multi-thread", "macros"] }
dotenvy = "*"
