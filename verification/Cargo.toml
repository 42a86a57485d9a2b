[package]
name = "fractured_json_rs"
version = "0.1.0"
edition = "2021"
publish = false

[dependencies]
jsonc-parser = { version = "*", features = ["cst"] }
clap = { version = "4", features = ["derive"] }
thiserror = "*"
