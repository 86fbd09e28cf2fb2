[package]
name = "rbs"
version = "0.1.0"
edition = "2021"

[dependencies]
indexmap = "2"
serde = "1"
