[package]
name = "gtfs_import"
version = "0.1.0"
edition = "2021"
publish = false

[dependencies]
anyhow = "=1.0.104"
dotenv = "=0.15.0"
rusqlite = { version = "=0.41.0", features = ["fallible_uint"] }
zip = { version = "=9.1.0", default-features = false, features = ["deflate"] }
