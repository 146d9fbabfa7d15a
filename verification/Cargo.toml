[package]
name = "rand_tool"
version = "0.1.0"
edition = "2021"
publish = false

[dependencies]
base64 = "0.22"
clap = { version = "4", features = ["derive"] }
passwords = "3"
rand = "0.9"
uuid = { version = "1", features = ["v4"] }
