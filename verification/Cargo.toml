[package]
name = "maxwell"
version = "0.1.0"
edition = "2021"
publish = false

[dependencies]
uuid = { version = "=1.29.0", features = ["v4"] }
chrono = { version = "=0.4.45", features = ["serde"] }
tokio = { version = "=1.54.1", features = ["full"] }
http = "=1.5.0"
goblin = "=0.9.3"
iced-x86 = "=1.22.0"
rustls-pemfile = "=2.2.0"
rcgen = { version = "=0.13.2", features = ["x509-parser"] }
rustls = { version = "=0.23.46", default-features = false, features = ["ring", "std", "tls12", "logging"] }
tokio-rustls = { version = "=0.26.6", default-features = false, features = ["ring", "tls12", "logging"] }
hyper = { version = "=1.12.0", features = ["full"] }
hyper-util = { version = "=0.1.21", features = ["full"] }
hyper-rustls = { version = "=0.27.10", default-features = false, features = ["http1", "tls12", "logging", "ring", "webpki-tokio"] }
http-body-util = "=0.1.5"
bytes = "=1.12.1"
dirs = "=5.0.1"
tracing = "=0.1.44"
tracing-subscriber = { version = "=0.3.23", features = ["env-filter"] }
clap = { version = "=4.6.7", features = ["derive"] }
