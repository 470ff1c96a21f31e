[package]
name = "datatool"
version = "0.1.0"
edition = "2021"
publish = false

[dependencies]
polars = { version = "*", default-features = false, features = ["parquet", "dtype-date", "temporal"] }
chrono = "0.4"
encoding = "0.2"
clap = { version = "4", features = ["derive"] }
