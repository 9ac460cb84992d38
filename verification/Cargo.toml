[package]
name = "wikt_lookup"
version = "0.1.0"
edition = "2021"
publish = false

[dependencies]
glob = "*"
reqwest = { version = "*", default-features = false, features = ["rustls-tls"] }
tl = "*"
tokio = { version = "*", default-features = false, features = ["rt"] }
