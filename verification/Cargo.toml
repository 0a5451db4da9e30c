[package]
name = "rust_data_pipeline"
version = "0.1.0"
edition = "2021"
publish = false

[dependencies]
anyhow = "1"
chrono = "0.4"
futures = "0.3"
polars = { version = "0.42", default-features = false, features = ["csv", "strings", "temporal", "dtype-date"] }
sqlx = { version = "0.8", default-features = false, features = ["postgres", "runtime-tokio", "bigdecimal", "chrono"] }
tokio = { version = "1", features = ["rt-multi-thread", "macros"] }
