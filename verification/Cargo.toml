[package]
name = "zrapport"
version = "0.1.0"
edition = "2021"
publish = false

[dependencies]
chrono = "*"
http = "*"
rpassword = "*"
rust_decimal = "*"
serde = { version = "*", features = ["derive"] }
serde_json = "*"
ureq = { version = "*", features = ["json"] }
