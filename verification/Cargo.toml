[package]
name = "cached_core"
version = "0.1.0"
edition = "2021"
publish = false

[dependencies]
darling = "0.10"
once_cell = "1"
quote = "1"
syn = { version = "1", features = ["full"] }
