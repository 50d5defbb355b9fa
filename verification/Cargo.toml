[package]
name = "cdm"
version = "0.1.0"
edition = "2021"
publish = false

[dependencies]
home = "*"
proc-macro2 = "*"
quote = "*"
serde = { version = "*", features = ["derive"] }
serde_json = "*"
syn = "*"
