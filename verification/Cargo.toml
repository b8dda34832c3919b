[package]
name = "invaders_server"
version = "0.1.0"
edition = "2021"
publish = false

[dependencies]
rusty_time = "=0.11.3"
serde_json = "=1.0.154"
serde = { version = "=1.0.229", features = ["derive"] }
rand = "=0.8.8"
dashmap = "=5.5.3"
actix = "=0.13.5"
actix-web = "=4.18.1"
actix-web-actors = "=4.3.1"
actix-cors = "=0.7.2"
tokio = { version = "=1.54.1", features = ["time", "rt"] }
