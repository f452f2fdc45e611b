[package]
name = "pastebin"
version = "0.1.0"
edition = "2021"
publish = false

[dependencies]
linked-hash-map = "0.5"
gpw = "*"
rand = "0.8"
actix-web = "4"
futures = "0.3"
htmlescape = "0.3"
syntect = { version = "5", default-features = false, features = ["default-fancy"] }
once_cell = "1"
log = "0.4"
pretty_env_logger = "*"
argh = "0.1"
serde = { version = "1", features = ["derive"] }
