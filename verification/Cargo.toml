[package]
name = "zero2prod"
version = "0.1.0"
edition = "2021"
publish = false

[dependencies]
actix-web = { version = "*", default-features = false, features = ["macros"] }
env_logger = "*"
sqlx = { version = "*", default-features = false, features = ["postgres", "runtime-tokio"] }
