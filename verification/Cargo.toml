[package]
name = "typescript_jit"
version = "0.1.0"
edition = "2021"
publish = false

[dependencies]
clap = { version = "*", features = ["derive"] }
hex = "*"
rustc_apfloat = "*"
sha2 = "*"
