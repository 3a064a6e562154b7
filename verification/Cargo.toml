[package]
name = "lenso_postgres_kit"
version = "0.1.0"
edition = "2021"
publish = false

[dependencies]
hex = "0.4"
sha2 = "0.10"
sqlx-core = { version = "*", features = ["_rt-tokio"] }
sqlx-postgres = "*"

[dev-dependencies]
rusqlite = { version = "*", features = ["bundled"] }
tokio = { version = "1", features = ["rt"] }
