[package]
name = "rs_sqlite"
version = "0.1.0"
edition = "2021"
publish = false

[dependencies]
binary_serde = "0.1.6"
scanf = "1.3.1"
