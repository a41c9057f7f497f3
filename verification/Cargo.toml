[package]
name = "fesghel"
version = "0.1.0"
edition = "2021"
publish = false

[dependencies]
rand = "0.8"
serde = { version = "*", features = ["derive"] }
bson = "*"
mongodb = "*"
actix-web = "*"
config = "*"
prometheus = "*"
lazy_static = "*"
log = "*"
simple_logger = "*"
