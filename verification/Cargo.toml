[package]
name = "rok_orm"
version = "0.3.0"
edition = "2021"
publish = false

[dependencies]
sqlx = { version = "0.8", default-features = false, features = ["runtime-tokio", "postgres", "sqlite", "mysql", "chrono"] }
chrono = "0.4"
thiserror = "1"
async-trait = "0.1"
futures-core = "0.3"
