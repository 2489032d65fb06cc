[package]
name = "doc_sync"
version = "0.1.0"
edition = "2021"
publish = false

[dependencies]
md5 = "*"
tokio = { version = "*", features = ["sync", "rt", "macros", "rt-multi-thread"] }
