[package]
name = "safe_app_core"
version = "0.1.0"
edition = "2021"
publish = false

[dependencies]
lru-cache = "0.1"
sodiumoxide = "0.2"
