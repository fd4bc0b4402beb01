[package]
name = "lingua_capi"
version = "0.1.0"
edition = "2021"
publish = false

[dependencies]
lazy_static = "1"
lingua = { version = "1", default-features = false, features = ["english", "french", "german", "spanish"] }
