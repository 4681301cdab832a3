[package]
name = "axum_cors"
version = "0.1.0"
edition = "2021"
publish = false

[dependencies]
http = "0.2"
tower = "0.4"
axum = "0.2"
bytes = "1"
futures-util = "0.3"
http-body = "0.4"
log = "0.4"
pin-project-lite = "0.2"
tokio = { version = "1", features = ["rt-multi-thread", "macros"] }
