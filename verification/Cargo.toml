[package]
name = "wyy"
version = "0.1.0"
edition = "2021"
publish = false

[dependencies]
chrono = "=0.4.45"
rand = "=0.8.8"
dioxus = { version = "=0.5.6", default-features = false, features = ["macro", "html", "signals", "hooks", "launch", "router"] }
dioxus-logger = "=0.5.1"
rodio = { version = "=0.19.0", default-features = false }
tokio = { version = "=1.54.1", features = ["time"] }
reqwest = { version = "0.12", default-features = false, features = ["stream", "rustls-tls"] }
futures-util = "=0.3.34"
lazy_static = "=1.5.1"
cookie_store = "=0.21.1"
qrcode-generator = "=4.1.9"
tracing = "=0.1.44"
