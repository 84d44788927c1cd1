[package]
name = "minhash"
version = "0.1.0"
edition = "2021"
publish = false

[dependencies]
rand = "0.8"
duckdb = { version = "*", features = ["vtab-loadable", "vscalar", "vtab-arrow"] }
duckdb-loadable-macros = "*"
