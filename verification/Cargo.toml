[package]
name = "line"
version = "0.1.0"
edition = "2021"
publish = false

[dependencies]
ctrlc = "=3.5.2"
roblib-client = { version = "=0.1.0", features = ["roland"] }
