[package]
name = "monarch_hixl"
version = "0.1.0"
edition = "2021"
publish = false

[dependencies]
anyhow = "*"
async-trait = "*"
serde = { version = "*", features = ["derive"] }
