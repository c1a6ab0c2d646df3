[package]
name = "elevation_service"
version = "0.1.0"
edition = "2021"
publish = false

[dependencies]
flate2 = "1"
serde = { version = "1", features = ["derive"] }
tokio = { version = "1", features = ["full"] }
warp = "0.3"
reqwest = { version = "0.12", default-features = false, features = ["rustls-tls"] }
rust-s3 = { version = "0.35", default-features = false, features = ["tokio-rustls-tls"] }
futures = "0.3"
rand = "0.8"
byte-unit = "5"
dotenvy = "0.15"
