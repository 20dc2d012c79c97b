[package]
name = "secret_order_book"
version = "0.1.0"
edition = "2021"
publish = false

[dependencies]
cosmwasm-std = "0.10"
schemars = "0.7"
secret-toolkit = { version = "*", default-features = false, features = ["utils"] }
serde = { version = "1", features = ["derive"] }
