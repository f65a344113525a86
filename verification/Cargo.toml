[package]
name = "flutgif"
version = "0.1.0"
edition = "2021"
publish = false

[dependencies]
gif = "0.13"
rand = "0.8"
smallvec = "1"
clap = "4"
futures = "0.3"
hyper = { version = "0.14", features = ["client", "http1", "http2", "tcp"] }
hyper-tls = "0.5"
tokio = { version = "1", features = ["full"] }
