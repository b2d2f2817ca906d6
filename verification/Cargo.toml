[package]
name = "crypto_service"
version = "0.1.0"
edition = "2021"
publish = false

[dependencies]
chacha20poly1305 = { version = "0.10", default-features = false, features = ["reduced-round"] }
embedded-hal = { version = "0.2", features = ["unproven"] }
littlefs2 = "*"
