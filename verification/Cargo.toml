[package]
name = "pixel_rgba"
version = "0.1.0"
edition = "2021"
publish = false

[dependencies]
actix-web = { version = "4", default-features = false, features = ["macros"] }
actix-cors = "*"
serde = { version = "1", features = ["derive"] }
env_logger = "*"
log = "0.4"
