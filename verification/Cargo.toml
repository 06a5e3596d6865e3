[package]
name = "rustystreamer"
version = "0.1.0"
edition = "2021"
publish = false

[dependencies]
actix-web = "4"
actix-files = "0.6"
r2d2 = "0.8"
r2d2_sqlite = { version = "*", features = ["bundled"] }
serde = { version = "1", features = ["derive"] }
serde_json = "1"
rand = "0.8"
blake3 = "1"
html-escape = "0.2"
mime = "0.3"
dotenvy = "0.15"
