[package]
name = "lieweb"
version = "0.1.0"
edition = "2021"
publish = false

[dependencies]
http = "0.2"
hyper = { version = "0.14", features = ["server", "http1", "tcp"] }
log = "0.4"
mime = "0.3"
serde = "1"
serde_json = "1"
