[package]
name = "serenity"
version = "0.1.0"
edition = "2021"
publish = false

[dependencies]
async-std = "*"
futures = "0.3"
reqwest = { version = "*", default-features = false, features = ["json"] }
serde = { version = "1", features = ["derive"] }
url = "2"
