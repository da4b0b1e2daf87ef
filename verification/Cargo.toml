[package]
name = "plan_scan"
version = "0.1.0"
edition = "2021"
publish = false

[dependencies]
anyhow = "1"
cursive = { version = "*", default-features = false, features = ["crossterm-backend"] }
