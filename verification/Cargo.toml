[package]
name = "zero2prod"
version = "0.1.0"
edition = "2021"
publish = false

[dependencies]
uuid = { version = "*", features = ["v4"] }
chrono = "*"
actix-web = "*"
tokio = { version = "*", features = ["macros", "rt-multi-thread"] }
sqlx = { version = "*", default-features = false, features = ["runtime-tokio-rustls", "postgres", "uuid", "chrono"] }
log = "*"
