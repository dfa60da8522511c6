[package]
name = "duration_table"
version = "0.1.0"
edition = "2021"
publish = false

[dependencies]
csv = "1"
calamine = "*"
serde = { version = "1", features = ["derive"] }
