[package]
name = "course_sniper"
version = "0.1.0"
edition = "2021"
publish = false

[dependencies]
chrono = "0.4"
async-std = { version = "1", features = ["attributes"] }
chromiumoxide = "0.5"
clap = { version = "4", features = ["derive"] }
comfy-table = "*"
futures = "0.3"
indicatif = "*"
inquire = "*"
serde_json = "1"
