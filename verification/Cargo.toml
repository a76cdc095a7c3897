[package]
name = "rseek"
version = "0.1.0"
edition = "2021"
publish = false

[dependencies]
bytes = "*"
clap = "*"
http-body-util = "*"
hyper = { version = "*", features = ["client", "http1"] }
hyper-tls = "*"
hyper-util = { version = "*", features = ["client-legacy", "http1", "tokio"] }
probly-search = "*"
scraper = "*"
tokio = { version = "*", features = ["rt-multi-thread", "macros", "sync"] }
url = "*"
