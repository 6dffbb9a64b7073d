[package]
name = "wit_stub_deps"
version = "0.1.0"
edition = "2021"
publish = false

[dependencies]
anyhow = "1"
minijinja = "*"
serde = "1"
tempfile = "3"
wit-parser = "*"
