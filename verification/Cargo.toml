[package]
name = "matrix_sdk_sql"
version = "0.1.0"
edition = "2021"
publish = false

[dependencies]
anyhow = "1"
sqlx = { version = "0.6", default-features = false, features = ["runtime-tokio-native-tls", "postgres", "sqlite", "migrate"] }

[dev-dependencies]
tokio = { version = "1", features = ["rt"] }
