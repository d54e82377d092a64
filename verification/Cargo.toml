[package]
name = "coinche"
version = "0.1.0"
edition = "2021"
publish = false

[dependencies]
rand = "0.8"
serde = { version = "1", features = ["derive"] }
serde_json = "1"
actix = "0.13"
actix-web = "4"
actix-web-actors = "4"
actix-files = "0.6"
futures = "0.3"
log = "0.4"
fern = { version = "0.7", features = ["colored"] }
chrono = "0.4"
