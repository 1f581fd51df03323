[package]
name = "bank_files"
version = "0.1.0"
edition = "2021"
publish = false

[dependencies]
rust_decimal = "1"
chrono = "0.4"
anyhow = "1"
