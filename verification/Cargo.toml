[package]
name = "redux"
version = "0.1.0"
edition = "2021"
publish = false

[dependencies]
jemalloc-ctl = "*"
serde = { version = "*", features = ["derive"] }
