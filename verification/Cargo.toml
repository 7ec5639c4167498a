[package]
name = "odata_rust_generator"
version = "0.1.0"
edition = "2021"
publish = false

[dependencies]
clap = { version = "*", features = ["derive"] }
codegen = "*"
odata-parser-rs = "*"
