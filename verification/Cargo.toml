[package]
name = "kino_relay"
version = "0.1.1"
edition = "2021"
publish = false

[dependencies]
axum = { version = "0.7", features = ["ws"] }
axum-server = { version = "0.7", default-features = false, features = ["tls-rustls-no-provider"] }
futures = "0.3"
jsonwebtoken = "9"
rustls = { version = "0.23", default-features = false, features = ["ring", "std", "tls12", "logging"] }
rustls-pemfile = "2"
serde = { version = "1", features = ["derive"] }
serde_json = "1"
subtle = "2"
tokio = { version = "1", features = ["full"] }
tracing = "0.1"
tracing-subscriber = "0.3"
ureq = { version = "2", features = ["json"] }
uuid = { version = "1", features = ["v4"] }
