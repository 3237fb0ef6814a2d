[package]
name = "crawltext"
version = "0.1.0"
edition = "2021"
publish = false

[dependencies]
html5ever = "=0.39.0"
markup5ever_rcdom = "=0.39.0"
hyper = { version = "=0.14.32", default-features = false, features = ["client", "http1", "tcp"] }
mecab = "=0.1.6"
tokio = { version = "*", features = ["rt"] }
