[package]
name = "cash_dispenser"
version = "0.1.0"
edition = "2021"
publish = false

[dependencies]
strum = { version = "*", features = ["derive"] }
strum_macros = "*"
thiserror = "*"
