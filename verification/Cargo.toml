[package]
name = "knocks"
version = "0.1.0"
edition = "2021"
publish = false

[dependencies]
getrandom = "0.2"
http-body-util = "0.1"
hyper = "1"
reqwest = { version = "0.12", default-features = false, features = ["json", "rustls-tls"] }
serde = { version = "1", features = ["derive"] }
serde_json = "1"
tokio = { version = "1", features = ["macros", "rt-multi-thread", "time"] }
vercel_runtime = "2"
