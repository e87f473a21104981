[package]
name = "webenvelope"
version = "0.1.0"
edition = "2021"
publish = false

[dependencies]
encoding_rs = "*"
serde_urlencoded = "*"
serde = "*"
futures-util = "*"
bytes = "*"
actix-http = "*"
actix-router = "*"
actix-service = "*"
