[package]
name = "dd-localstack"
version = "0.1.0"
edition = "2021"
publish = false

[dependencies]
flate2 = "1"
uuid = { version = "1", features = ["v4"] }
serde = { version = "1", features = ["derive"] }
serde_json = "1"
rmp-serde = "1"
futures = "0.3"
actix-web = { version = "4", default-features = false, features = ["macros"] }
actix-multipart = "0.6"
