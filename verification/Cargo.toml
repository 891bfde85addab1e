[package]
name = "eigeen_loader"
version = "1.0.0"
edition = "2021"
publish = false

[dependencies]
chrono = "*"
colored = "*"
serde = { version = "*", features = ["derive"] }
serde_json = "*"
thiserror = "*"
