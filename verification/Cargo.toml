[package]
name = "goose_db"
version = "0.1.0"
edition = "2021"
publish = false

[dependencies]
arrow = "*"
parquet = "*"

[dev-dependencies]
chrono = "*"
