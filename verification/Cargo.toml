[package]
name = "cargo_add"
version = "0.1.0"
edition = "2021"
publish = false

[dependencies]
indexmap = "*"
clap = "*"
anyhow = "*"
