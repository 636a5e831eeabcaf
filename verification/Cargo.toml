[package]
name = "gitcomet"
version = "0.1.0"
edition = "2021"
publish = false

[dependencies]
rustc-hash = "2"
regex = "1"
