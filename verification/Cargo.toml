[package]
name = "industryts-core"
version = "0.2.0"
edition = "2021"
publish = false

[dependencies]
polars = { version = "0.51", default-features = false, features = ["dtype-date", "dtype-datetime"] }
serde = { version = "1", features = ["derive"] }
toml = "0.8"
