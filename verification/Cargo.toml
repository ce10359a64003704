[package]
name = "ticketdb"
version = "0.1.0"
edition = "2021"
publish = false

[dependencies]
async-std = "*"
clap = { version = "*", features = ["derive"] }
serde = { version = "*", features = ["derive"] }
serde_json = "*"
serde_yaml = "*"
sqlx = { version = "*", default-features = false, features = ["runtime-async-std", "sqlite", "postgres", "macros", "derive"] }
