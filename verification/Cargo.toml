[package]
name = "image_gallery"
version = "0.1.0"
edition = "2021"
publish = false

[dependencies]
axum = "0.7"
rand = "0.8"
tokio = { version = "1", features = ["fs", "macros", "net", "rt-multi-thread"] }
tower-http = { version = "0.5", features = ["fs", "trace"] }
