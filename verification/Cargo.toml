[package]
name = "catboost_polars"
version = "0.1.0"
edition = "2021"
publish = false

[dependencies]
polars = { version = "0.46", default-features = false, features = ["fmt"] }
