[package]
name = "front_end"
version = "0.1.0"
edition = "2021"
publish = false

[dependencies]
clap = { version = "4", features = ["derive"] }
dyn-clone = "1"
utf8-chars = "*"
