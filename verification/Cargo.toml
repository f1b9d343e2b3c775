[package]
name = "kenny_control"
version = "0.1.0"
edition = "2021"
publish = false

[dependencies]
termion = "=1.1.4"
