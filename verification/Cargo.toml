[package]
name = "primitive_page"
version = "0.1.0"
edition = "2021"
publish = false

[dependencies]
parquet2 = "*"
