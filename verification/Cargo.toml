[package]
name = "full_join_probe"
version = "0.1.0"
edition = "2021"
publish = false

[dependencies]
polars-arrow = { version = "0.48", default-features = false }
polars-core = { version = "0.48", default-features = false }
polars-ops = { version = "0.48", default-features = false, features = ["chunked_ids"] }
polars-utils = { version = "0.48", default-features = false }
