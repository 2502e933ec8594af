[package]
name = "licensor"
version = "0.1.0"
edition = "2021"
publish = false

[dependencies]
yaml-rust2 = "*"
hashlink = "*"
minijinja = "*"
chrono = "*"
sanitize-filename = "*"
serde = { version = "1", features = ["derive"] }
clap = { version = "4", features = ["derive"] }
tokio = { version = "1", features = ["full"] }
tokio-util = { version = "*", features = ["compat"] }
futures-lite = "*"
async_zip = { version = "*", features = ["deflate"] }
reqwest = { version = "*", default-features = false, features = ["rustls-tls"] }
home = "*"
inquire = "*"
log = "*"
simple_logger = "*"
spinners = "*"
