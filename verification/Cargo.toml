[package]
name = "sr_exam"
version = "0.1.0"
edition = "2021"
publish = false

[dependencies]
bcrypt = "0.15"
rand = "0.8"
mysql = "25"
serde = { version = "1", features = ["derive"] }
cynic = { version = "3", features = ["http-surf"] }
surf = "2"
async-std = "1"
